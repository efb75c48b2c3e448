use vstd::prelude::*;
use vstd::array::array_as_slice;
use vstd::slice::slice_subrange;
use crate::value::{ITMPortConvType, width_of, decode_as};
use crate::value_list::{ValueList, value_list_items, MAX_MSG_PER_PCKT};

verus! {

/// Number of stimulus ports a software-source header can address.
pub const NUM_ITM_PORTS: usize = 32;

/// Capacity of the lookahead buffer: long enough to hold a whole
/// synchronization frame before a shorter packet is committed to.
pub const PARSE_BUF_LEN: usize = 6;

/// Largest payload a software-source packet declares.
pub const MAX_PAYLOAD_SZ: usize = 4;

/// The single byte that reports a trace FIFO overflow.
pub const PCKT_OVFW: u8 = 0x70;

/// Header bit that marks a hardware source (set) rather than a software
/// stimulus port (clear).
pub const PCKT_HWSC: u8 = 0b00000100;

/// Why a byte did not complete a decoded value.
#[derive(Clone, Copy, Debug, PartialEq, Eq, Structural)]
pub enum ITMParseError {
    /// The header at the front of the buffer waits for more payload bytes.
    /// Not an error: keep feeding bytes.
    UnderfullPacket { addr: usize },
    /// A complete packet arrived for a port with no decode type; it was dropped.
    UnconfiguredPort { addr: usize },
    /// A software-source header declared size code `00`; the header was dropped.
    InvalidTracePacketSize { addr: usize },
    /// The payload size is not a multiple of the port's value width; the
    /// packet was dropped.
    TracePacketSizeMismatch { addr: usize },
    /// The trace hardware reported that it lost data.
    ITMOverflow,
    /// The buffer was full without a packet being recognized: it was flushed
    /// and now holds only the new byte.
    ParseBufFull,
    /// A synchronization frame was recognized and dropped; its handling is
    /// not supported.
    UnsupportedSyncPacket,
    /// The front of the buffer holds a hardware-source header, whose framing
    /// is not supported. The header stays buffered until the buffer overruns.
    UnsupportedHardwarePacket,
    /// No packet shape matched. Never produced: the shapes cover every header.
    UnknownError,
}

/// A decoded packet: the port it came from and its values.
#[derive(Debug)]
pub struct ITMConvValue {
    pub port: usize,
    pub data: ValueList,
}

/// Streaming decoder of ITM software-source packets, fed one byte at a time.
pub struct ITMParser {
    byte_buffer: [u8; PARSE_BUF_LEN],
    len: usize,
    port_config: [Option<ITMPortConvType>; NUM_ITM_PORTS],
}

/// The abstract state of a decoder: the bytes of the packet being framed,
/// oldest first, and the decode type of each port.
pub struct ParserModel {
    pub buffer: Seq<u8>,
    pub config: Seq<Option<ITMPortConvType>>,
}

/// The result of one byte, as a port and its values or an error.
pub type PacketOutcome = Result<(usize, Seq<ITMPortConvType>), ITMParseError>;

/// The abstract state that follows one byte, with that byte's outcome.
pub type StepResult = (Seq<u8>, PacketOutcome);

/// Whether a header byte comes from a hardware source.
pub open spec fn is_hardware_source(h: u8) -> bool {
    h & PCKT_HWSC == PCKT_HWSC
}

/// Port address held in bits 3 to 7 of a software-source header.
pub open spec fn header_port(h: u8) -> usize {
    ((h >> 3u8) & 0x1fu8) as usize
}

/// Payload length declared by bits 0 and 1 of a header; 0 for the invalid code.
pub open spec fn payload_size(h: u8) -> nat {
    let code = h & 0x03u8;
    if code == 1 {
        1
    } else if code == 2 {
        2
    } else if code == 3 {
        4
    } else {
        0
    }
}

/// Five zero bytes followed by `0x80`.
pub open spec fn sync_frame() -> Seq<u8> {
    seq![0u8, 0u8, 0u8, 0u8, 0u8, 0x80u8]
}

/// The payload split into consecutive little-endian chunks of the width of
/// `t`, each decoded as a value of the variant of `t`.
pub open spec fn decode_payload(t: ITMPortConvType, payload: Seq<u8>) -> Seq<ITMPortConvType> {
    let w = width_of(t) as int;
    Seq::new(
        payload.len() / width_of(t),
        |k: int| decode_as(t, payload.subrange(k * w, k * w + w)),
    )
}

/// What a non-empty buffer resolves to: the bytes left buffered and the outcome.
pub open spec fn resolve(b: Seq<u8>, config: Seq<Option<ITMPortConvType>>) -> StepResult {
    if b == sync_frame() {
        (Seq::empty(), Err(ITMParseError::UnsupportedSyncPacket))
    } else if b[0] == PCKT_OVFW {
        (b.drop_first(), Err(ITMParseError::ITMOverflow))
    } else if is_hardware_source(b[0]) {
        (b, Err(ITMParseError::UnsupportedHardwarePacket))
    } else {
        let addr = header_port(b[0]);
        let size = payload_size(b[0]) as int;
        if size == 0 {
            (b.drop_first(), Err(ITMParseError::InvalidTracePacketSize { addr }))
        } else if b.len() < 1 + size {
            (b, Err(ITMParseError::UnderfullPacket { addr }))
        } else {
            let rest = b.subrange(1 + size, b.len() as int);
            match config[addr as int] {
                None => (rest, Err(ITMParseError::UnconfiguredPort { addr })),
                Some(t) => if size % (width_of(t) as int) != 0 {
                    (rest, Err(ITMParseError::TracePacketSizeMismatch { addr }))
                } else {
                    (rest, Ok((addr, decode_payload(t, b.subrange(1, 1 + size)))))
                },
            }
        }
    }
}

/// One byte fed to a decoder whose buffer holds `buf`.
pub open spec fn step(buf: Seq<u8>, config: Seq<Option<ITMPortConvType>>, byte: u8) -> StepResult {
    if buf.len() >= PARSE_BUF_LEN {
        (seq![byte], Err(ITMParseError::ParseBufFull))
    } else {
        resolve(buf.push(byte), config)
    }
}

/// `bytes` fed one at a time: the buffer left and the outcome of each byte.
pub open spec fn feed(buf: Seq<u8>, config: Seq<Option<ITMPortConvType>>, bytes: Seq<u8>) -> (
    Seq<u8>,
    Seq<PacketOutcome>,
)
    decreases bytes.len(),
{
    if bytes.len() == 0 {
        (buf, Seq::empty())
    } else {
        let prev = feed(buf, config, bytes.drop_last());
        let next = step(prev.0, config, bytes.last());
        (next.0, prev.1.push(next.1))
    }
}

/// The outcome that a result of `update` stands for.
pub open spec fn outcome_of(r: Result<ITMConvValue, ITMParseError>) -> PacketOutcome {
    match r {
        Ok(v) => Ok((v.port, value_list_items(v.data))),
        Err(e) => Err(e),
    }
}

/// A software-source header with a valid size code.
pub open spec fn is_data_header(h: u8) -> bool {
    !is_hardware_source(h) && payload_size(h) > 0
}

/// A data header is neither the overflow marker nor a zero byte, declares 1
/// to 4 payload bytes, and addresses an existing port.
proof fn lemma_data_header_facts(h: u8)
    requires
        is_data_header(h),
    ensures
        h != PCKT_OVFW,
        h != 0,
        1 <= payload_size(h) <= MAX_PAYLOAD_SZ,
        header_port(h) < NUM_ITM_PORTS,
{
    assert(((h >> 3u8) & 0x1fu8) < 32) by (bit_vector);
    assert((0x70u8 & 0x03u8) == 0) by (bit_vector);
    assert((0u8 & 0x03u8) == 0) by (bit_vector);
}

/// After a data header and fewer payload bytes than it declares, every byte
/// has reported an underfull packet and all of them are still buffered.
proof fn lemma_partial_packet(config: Seq<Option<ITMPortConvType>>, h: u8, payload: Seq<u8>, k: nat)
    requires
        is_data_header(h),
        payload.len() == payload_size(h),
        k < payload_size(h),
    ensures
        feed(Seq::empty(), config, seq![h] + payload.take(k as int)).0 == seq![h] + payload.take(
            k as int,
        ),
        feed(Seq::empty(), config, seq![h] + payload.take(k as int)).1 == Seq::new(
            k + 1,
            |i: int| Err::<(usize, Seq<ITMPortConvType>), ITMParseError>(
                ITMParseError::UnderfullPacket { addr: header_port(h) },
            ),
        ),
    decreases k,
{
    lemma_data_header_facts(h);
    let bytes = seq![h] + payload.take(k as int);
    if k == 0 {
        let e = Seq::<u8>::empty();
        assert(bytes =~= seq![h]);
        assert(bytes.drop_last() =~= e);
        assert(feed(e, config, e) == (e, Seq::<PacketOutcome>::empty()));
        assert(e.push(h) =~= seq![h]);
        assert(seq![h] != sync_frame()) by {
            assert(seq![h].len() != sync_frame().len());
        }
        assert(seq![h][0] == h);
        let st = step(e, config, h);
        assert(st == (
            seq![h],
            Err::<(usize, Seq<ITMPortConvType>), ITMParseError>(
                ITMParseError::UnderfullPacket { addr: header_port(h) },
            ),
        ));
        assert(feed(e, config, bytes) == (st.0, Seq::<PacketOutcome>::empty().push(st.1)));
        assert(feed(Seq::empty(), config, bytes).1 =~= Seq::new(
            k + 1,
            |i: int| Err::<(usize, Seq<ITMPortConvType>), ITMParseError>(
                ITMParseError::UnderfullPacket { addr: header_port(h) },
            ),
        ));
    } else {
        let j = (k - 1) as nat;
        lemma_partial_packet(config, h, payload, j);
        let prev = seq![h] + payload.take(j as int);
        assert(bytes.drop_last() =~= prev);
        assert(bytes.last() == payload[j as int]);
        assert(prev.push(payload[j as int]) =~= bytes);
        assert(bytes[0] == h);
        assert(bytes != sync_frame()) by {
            if bytes == sync_frame() {
                assert(bytes[0] == sync_frame()[0]);
            }
        }
        assert(feed(Seq::empty(), config, bytes).1 =~= Seq::new(
            k + 1,
            |i: int| Err::<(usize, Seq<ITMPortConvType>), ITMParseError>(
                ITMParseError::UnderfullPacket { addr: header_port(h) },
            ),
        ));
    }
}

/// Feeding a data header and then its payload one byte at a time reports an
/// underfull packet for the header and every payload byte but the last, and
/// the last byte gives what the whole packet gives when it is buffered at once.
pub proof fn lemma_drip_feed(config: Seq<Option<ITMPortConvType>>, h: u8, payload: Seq<u8>)
    requires
        is_data_header(h),
        payload.len() == payload_size(h),
    ensures
        feed(Seq::empty(), config, seq![h] + payload).1.len() == payload.len() + 1,
        forall|i: int|
            0 <= i < payload.len() ==> feed(Seq::empty(), config, seq![h] + payload).1[i]
                == Err::<(usize, Seq<ITMPortConvType>), ITMParseError>(
                ITMParseError::UnderfullPacket { addr: header_port(h) },
            ),
        feed(Seq::empty(), config, seq![h] + payload).1[payload.len() as int] == resolve(
            seq![h] + payload,
            config,
        ).1,
        feed(Seq::empty(), config, seq![h] + payload).0 == resolve(seq![h] + payload, config).0,
{
    lemma_data_header_facts(h);
    let n = payload.len();
    let j = (n - 1) as nat;
    lemma_partial_packet(config, h, payload, j);
    let bytes = seq![h] + payload;
    let prev = seq![h] + payload.take(j as int);
    assert(bytes.drop_last() =~= prev);
    assert(prev.push(payload[j as int]) =~= bytes);
}

/// A data header and its full payload, fed one byte at a time to an empty
/// buffer on a port whose value width divides the payload size, give exactly
/// one decoded value: on the last byte, for the header's port, with payload
/// size / width values; the buffer is empty afterwards.
pub proof fn lemma_complete_packet(
    config: Seq<Option<ITMPortConvType>>,
    h: u8,
    payload: Seq<u8>,
    t: ITMPortConvType,
)
    requires
        config.len() == NUM_ITM_PORTS,
        is_data_header(h),
        payload.len() == payload_size(h),
        config[header_port(h) as int] == Some(t),
        payload_size(h) % width_of(t) == 0,
    ensures
        forall|i: int|
            0 <= i < payload.len() ==> feed(Seq::empty(), config, seq![h] + payload).1[i] is Err,
        feed(Seq::empty(), config, seq![h] + payload).1[payload.len() as int] == Ok::<
            (usize, Seq<ITMPortConvType>),
            ITMParseError,
        >((header_port(h), decode_payload(t, payload))),
        decode_payload(t, payload).len() == payload_size(h) / width_of(t),
        feed(Seq::empty(), config, seq![h] + payload).0 == Seq::<u8>::empty(),
{
    lemma_data_header_facts(h);
    lemma_drip_feed(config, h, payload);
    let bytes = seq![h] + payload;
    assert(bytes[0] == h);
    assert(bytes != sync_frame()) by {
        if bytes == sync_frame() {
            assert(bytes[0] == sync_frame()[0]);
        }
    }
    assert(bytes.subrange(1, 1 + payload.len() as int) =~= payload);
    assert(bytes.subrange(1 + payload.len() as int, bytes.len() as int) =~= Seq::<u8>::empty());
}

/// An overflow marker fed to an empty buffer is reported as an overflow and
/// leaves the buffer empty.
pub proof fn lemma_overflow_marker(config: Seq<Option<ITMPortConvType>>)
    ensures
        step(Seq::empty(), config, PCKT_OVFW) == (
            Seq::<u8>::empty(),
            Err::<(usize, Seq<ITMPortConvType>), ITMParseError>(ITMParseError::ITMOverflow),
        ),
{
    let b = Seq::<u8>::empty().push(PCKT_OVFW);
    assert(b.len() != sync_frame().len());
    assert(b.drop_first() =~= Seq::<u8>::empty());
}

/// A software-source header with size code `00`, fed to an empty buffer, is
/// reported as an invalid size for its port and is the one byte dropped.
pub proof fn lemma_invalid_size_code(config: Seq<Option<ITMPortConvType>>, h: u8)
    requires
        !is_hardware_source(h),
        h & 0x03u8 == 0,
        h != PCKT_OVFW,
    ensures
        step(Seq::empty(), config, h) == (
            Seq::<u8>::empty(),
            Err::<(usize, Seq<ITMPortConvType>), ITMParseError>(
                ITMParseError::InvalidTracePacketSize { addr: header_port(h) },
            ),
        ),
{
    let b = Seq::<u8>::empty().push(h);
    assert(b.len() != sync_frame().len());
    assert(b.drop_first() =~= Seq::<u8>::empty());
}

/// A byte that arrives when the buffer is full flushes it: the outcome is an
/// overrun and the buffer holds just that byte, which the next byte then
/// extends as the front of a new packet.
pub proof fn lemma_overrun(config: Seq<Option<ITMPortConvType>>, buf: Seq<u8>, byte: u8, next: u8)
    requires
        buf.len() == PARSE_BUF_LEN,
    ensures
        step(buf, config, byte) == (
            seq![byte],
            Err::<(usize, Seq<ITMPortConvType>), ITMParseError>(ITMParseError::ParseBufFull),
        ),
        step(step(buf, config, byte).0, config, next) == resolve(seq![byte, next], config),
{
    assert(seq![byte].push(next) =~= seq![byte, next]);
}

/// A hardware-source header followed by five more bytes fills the buffer
/// without completing a packet; a seventh byte then overruns it.
pub proof fn lemma_stalled_buffer_overruns(
    config: Seq<Option<ITMPortConvType>>,
    bytes: Seq<u8>,
)
    requires
        bytes.len() == PARSE_BUF_LEN + 1,
        is_hardware_source(bytes[0]),
    ensures
        forall|i: int|
            0 <= i < PARSE_BUF_LEN ==> feed(Seq::empty(), config, bytes).1[i]
                == Err::<(usize, Seq<ITMPortConvType>), ITMParseError>(
                ITMParseError::UnsupportedHardwarePacket,
            ),
        feed(Seq::empty(), config, bytes).1[PARSE_BUF_LEN as int] == Err::<
            (usize, Seq<ITMPortConvType>),
            ITMParseError,
        >(ITMParseError::ParseBufFull),
        feed(Seq::empty(), config, bytes).0 == seq![bytes[PARSE_BUF_LEN as int]],
{
    lemma_stalled_prefix(config, bytes, PARSE_BUF_LEN as nat);
    let full = bytes.take(PARSE_BUF_LEN as int);
    assert(bytes.drop_last() =~= full);
}

/// Each prefix of up to six bytes that starts with a hardware-source header
/// stays buffered whole, every byte reporting an unsupported packet.
proof fn lemma_stalled_prefix(config: Seq<Option<ITMPortConvType>>, bytes: Seq<u8>, k: nat)
    requires
        1 <= k <= PARSE_BUF_LEN,
        k <= bytes.len(),
        is_hardware_source(bytes[0]),
    ensures
        feed(Seq::empty(), config, bytes.take(k as int)).0 == bytes.take(k as int),
        feed(Seq::empty(), config, bytes.take(k as int)).1 == Seq::new(
            k,
            |i: int| Err::<(usize, Seq<ITMPortConvType>), ITMParseError>(
                ITMParseError::UnsupportedHardwarePacket,
            ),
        ),
    decreases k,
{
    let cur = bytes.take(k as int);
    assert(bytes[0] != 0 && bytes[0] != PCKT_OVFW) by {
        let h = bytes[0];
        assert(h & PCKT_HWSC == PCKT_HWSC ==> h != 0 && h != 0x70u8) by (bit_vector);
    }
    assert(cur != sync_frame()) by {
        if cur == sync_frame() {
            assert(cur[0] == sync_frame()[0]);
        }
    }
    if k == 1 {
        let e = Seq::<u8>::empty();
        assert(cur.drop_last() =~= e);
        assert(feed(e, config, e) == (e, Seq::<PacketOutcome>::empty()));
        assert(e.push(bytes[0]) =~= cur);
        assert(cur.last() == bytes[0]);
        assert(cur[0] == bytes[0]);
    } else {
        let j = (k - 1) as nat;
        lemma_stalled_prefix(config, bytes, j);
        assert(cur.drop_last() =~= bytes.take(j as int));
        assert(bytes.take(j as int).push(cur.last()) =~= cur);
    }
    assert(feed(Seq::empty(), config, cur).1 =~= Seq::new(
        k,
        |i: int| Err::<(usize, Seq<ITMPortConvType>), ITMParseError>(
            ITMParseError::UnsupportedHardwarePacket,
        ),
    ));
}

impl View for ITMParser {
    type V = ParserModel;

    closed spec fn view(&self) -> ParserModel {
        ParserModel {
            buffer: self.byte_buffer@.take(self.len as int),
            config: self.port_config@,
        }
    }
}

impl ITMParser {
    #[verifier::type_invariant]
    spec fn inv(&self) -> bool {
        self.len <= PARSE_BUF_LEN
    }

    /// A decoder with an empty buffer and the given decode type per port.
    pub fn new(port_conf: [Option<ITMPortConvType>; NUM_ITM_PORTS]) -> (r: Self)
        ensures
            r@.buffer == Seq::<u8>::empty(),
            r@.config == port_conf@,
    {
        let r = ITMParser { byte_buffer: [0u8; PARSE_BUF_LEN], len: 0, port_config: port_conf };
        assert(r@.buffer =~= Seq::<u8>::empty());
        r
    }

    /// Number of bytes currently buffered.
    pub fn buffered_len(&self) -> (r: usize)
        ensures
            r == self@.buffer.len(),
            r <= PARSE_BUF_LEN,
    {
        proof {
            use_type_invariant(self);
        }
        self.len
    }

    /// The decode selector of port `addr`; `None` for a disabled port or an
    /// address past the last port.
    pub fn port_type(&self, addr: usize) -> (r: Option<ITMPortConvType>)
        ensures
            addr < NUM_ITM_PORTS ==> r == self@.config[addr as int],
            addr >= NUM_ITM_PORTS ==> r is None,
    {
        if addr < NUM_ITM_PORTS {
            self.port_config[addr]
        } else {
            None
        }
    }

    /// Feeds one byte; returns the packet it completes, or why none was completed.
    ///
    /// A full buffer is flushed first and keeps only the new byte. Otherwise
    /// the byte is appended and the buffer is matched, in this order, against
    /// a synchronization frame, the overflow marker, a hardware-source header
    /// and a software-source header; a complete software packet is removed
    /// from the buffer and decoded with the decode type of its port.
    pub fn update(&mut self, byte: u8) -> (r: Result<ITMConvValue, ITMParseError>)
        ensures
            final(self)@.config == old(self)@.config,
            final(self)@.buffer == step(old(self)@.buffer, old(self)@.config, byte).0,
            outcome_of(r) == step(old(self)@.buffer, old(self)@.config, byte).1,
            final(self)@.buffer.len() <= PARSE_BUF_LEN,
            !(r matches Err(ITMParseError::UnknownError)),
    {
        proof {
            use_type_invariant(&*self);
        }
        if self.len == PARSE_BUF_LEN {
            self.byte_buffer[0] = byte;
            self.len = 1;
            assert(self@.buffer =~= seq![byte]);
            return Err(ITMParseError::ParseBufFull);
        }
        let ghost b = old(self)@.buffer.push(byte);
        self.byte_buffer[self.len] = byte;
        self.len = self.len + 1;
        assert(self@.buffer =~= b);
        assert(self.port_config@ == old(self)@.config);

        if self.len == PARSE_BUF_LEN && self.byte_buffer[0] == 0 && self.byte_buffer[1] == 0
            && self.byte_buffer[2] == 0 && self.byte_buffer[3] == 0 && self.byte_buffer[4] == 0
            && self.byte_buffer[5] == 0x80 {
            assert(b =~= sync_frame());
            self.len = 0;
            assert(self@.buffer =~= Seq::<u8>::empty());
            return Err(ITMParseError::UnsupportedSyncPacket);
        }
        assert(b != sync_frame()) by {
            if b == sync_frame() {
                assert(b[0] == 0 && b[5] == 0x80 && b.len() == 6);
            }
        }
        let head = self.byte_buffer[0];
        assert(head == b[0]);
        if head == PCKT_OVFW {
            self.pop_data(1);
            return Err(ITMParseError::ITMOverflow);
        }
        if (head & PCKT_HWSC) == PCKT_HWSC {
            return Err(ITMParseError::UnsupportedHardwarePacket);
        }
        let addr = ((head >> 3u8) & 0x1fu8) as usize;
        let code = head & 0x03u8;
        assert(code < 4) by (bit_vector)
            requires
                code == head & 0x03u8,
        ;
        assert(addr < NUM_ITM_PORTS) by (bit_vector)
            requires
                addr == ((head >> 3u8) & 0x1fu8) as usize,
        ;
        let size: usize = if code == 1 {
            1
        } else if code == 2 {
            2
        } else if code == 3 {
            4
        } else {
            self.pop_data(1);
            return Err(ITMParseError::InvalidTracePacketSize { addr });
        };
        if self.len < 1 + size {
            return Err(ITMParseError::UnderfullPacket { addr });
        }
        self.pop_data(1);
        let bytes = self.pop_data(size);
        assert(bytes@.take(size as int) =~= b.subrange(1, 1 + size));
        assert(self@.buffer =~= b.subrange(1 + size, b.len() as int));

        let parse_type = match self.port_config[addr] {
            Some(t) => t,
            None => {
                return Err(ITMParseError::UnconfiguredPort { addr });
            },
        };
        let w = parse_type.size();
        if size % w != 0 {
            return Err(ITMParseError::TracePacketSizeMismatch { addr });
        }
        let n = size / w;
        assert(n == if w == 1 { size } else { 1 }) by (nonlinear_arith)
            requires
                n == size / w,
                w == 1 || (w == 4 && size == 4),
        ;
        let ghost payload = b.subrange(1, 1 + size);
        let ghost want = decode_payload(parse_type, payload);
        assert(want.len() == n);

        let mut data = ValueList::new();
        let mut k: usize = 0;
        while k < n
            invariant
                k <= n,
                n <= MAX_MSG_PER_PCKT,
                w == width_of(parse_type),
                n * w == size,
                size <= MAX_PAYLOAD_SZ,
                bytes@.take(size as int) == payload,
                want == decode_payload(parse_type, payload),
                want.len() == n,
                value_list_items(data) == want.take(k as int),
            decreases n - k,
        {
            assert(k * w + w <= size) by (nonlinear_arith)
                requires
                    k < n,
                    n * w == size,
            ;
            let chunk = slice_subrange(array_as_slice(&bytes), k * w, k * w + w);
            assert(chunk@ =~= payload.subrange(k * w, k * w + w));
            let v = parse_type.with_data(chunk);
            data.push(v);
            k = k + 1;
            assert(value_list_items(data) =~= want.take(k as int));
        }
        assert(want.take(n as int) =~= want);
        Ok(ITMConvValue { port: addr, data })
    }

    /// Removes the first `size` bytes of the buffer, shifting the rest to the
    /// front, and returns them in the first `size` slots of the result.
    fn pop_data(&mut self, size: usize) -> (r: [u8; MAX_PAYLOAD_SZ])
        requires
            size <= old(self)@.buffer.len(),
            size <= MAX_PAYLOAD_SZ,
        ensures
            final(self)@.config == old(self)@.config,
            final(self)@.buffer == old(self)@.buffer.skip(size as int),
            r@.take(size as int) == old(self)@.buffer.take(size as int),
    {
        proof {
            use_type_invariant(&*self);
        }
        let ghost before = self@.buffer;
        let mut out: [u8; MAX_PAYLOAD_SZ] = [0u8; MAX_PAYLOAD_SZ];
        let mut i: usize = 0;
        while i < size
            invariant
                i <= size,
                size <= MAX_PAYLOAD_SZ,
                size <= self.len <= PARSE_BUF_LEN,
                self@.buffer == before,
                self.port_config@ == old(self)@.config,
                forall|j: int| 0 <= j < i ==> out@[j] == before[j],
            decreases size - i,
        {
            out[i] = self.byte_buffer[i];
            i = i + 1;
        }
        let mut j: usize = 0;
        while j + size < self.len
            invariant
                size <= self.len <= PARSE_BUF_LEN,
                j <= self.len - size,
                before.len() == self.len,
                self.port_config@ == old(self)@.config,
                forall|m: int| 0 <= m < j ==> self.byte_buffer@[m] == before[m + size],
                forall|m: int| j + size <= m < self.len ==> self.byte_buffer@[m] == before[m],
            decreases self.len - j,
        {
            self.byte_buffer[j] = self.byte_buffer[j + size];
            j = j + 1;
        }
        self.len = self.len - size;
        assert(self@.buffer =~= before.skip(size as int));
        assert(out@.take(size as int) =~= before.take(size as int));
        out
    }
}

} // verus!
