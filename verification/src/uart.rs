//! The framing of the serial protocol. A frame is the magic `U M X`, a 16-bit
//! big-endian length, and that many payload bytes. The reassembler takes a
//! stream of bytes apart into payloads, one byte at a time, and finds its way
//! back after garbage.

use crate::crc::{crc8_ccitt_response, crc8_ccitt_spec};
use vstd::prelude::*;

verus! {

/// The magic that starts every frame: `UMX`.
pub const HEADER: [u8; 3] = [85, 77, 88];

/// Length of the magic and the length field together.
pub const HEADER_LEN: usize = 5;

/// Largest payload that the 16-bit length field can announce.
pub const MAX_FRAME_PAYLOAD: usize = 0xFFFF;

/// What the reassembler is waiting for.
#[derive(Debug, Clone, Copy, PartialEq, Eq, Structural)]
pub enum UartState {
    AwaitingHeader,
    ReceivingCommand,
    CommandReceived,
}

/// Reassembler for one byte source, with room for payloads of up to
/// `RX_BUFFER_SIZE` bytes.
pub struct UartController<const RX_BUFFER_SIZE: usize> {
    rx_buf: [u8; RX_BUFFER_SIZE],
    rx_offset: usize,
    bytes_to_read: usize,
    state: UartState,
}

/// Mathematical model of the reassembler.
pub struct UartView {
    pub state: UartState,
    pub buffer: Seq<u8>,
    /// Number of bytes of the header or of the payload that are in the buffer.
    pub offset: int,
    /// Length of the payload that is being received.
    pub bytes_to_read: int,
}

/// A run of zero bytes.
pub open spec fn zeros(n: int) -> Seq<u8> {
    Seq::new(n as nat, |i: int| 0u8)
}

/// The value of a big-endian 16-bit length field.
pub open spec fn length_field(high: u8, low: u8) -> int {
    high * 256 + low
}

/// The bytes of the frame that carries a payload.
pub open spec fn frame(payload: Seq<u8>) -> Seq<u8> {
    seq![
        85u8,
        77u8,
        88u8,
        (payload.len() / 256) as u8,
        (payload.len() % 256) as u8,
    ] + payload
}

impl UartView {
    /// The reassembler with an empty buffer, waiting for a header.
    pub open spec fn idle(capacity: int) -> UartView {
        UartView {
            state: UartState::AwaitingHeader,
            buffer: zeros(capacity),
            offset: 0,
            bytes_to_read: 0,
        }
    }

    /// The reassembler takes the next byte for the first byte of a frame.
    pub open spec fn awaits_frame(self) -> bool {
        self.state == UartState::AwaitingHeader && self.offset == 0
    }

    /// The buffer has room for a header, holds zeros behind what was
    /// received, and the offset never leaves the buffer.
    pub open spec fn wf(self) -> bool {
        &&& self.buffer.len() >= HEADER_LEN
        &&& 0 <= self.offset <= self.buffer.len()
        &&& forall|i: int| self.offset <= i < self.buffer.len() ==> #[trigger] self.buffer[i] == 0
        &&& match self.state {
            UartState::AwaitingHeader => self.offset < HEADER_LEN && self.bytes_to_read == 0,
            UartState::ReceivingCommand => {
                &&& 0 <= self.bytes_to_read <= self.buffer.len()
                &&& (self.offset < self.bytes_to_read || self.offset == 0)
            },
            UartState::CommandReceived => {
                &&& 0 <= self.bytes_to_read <= self.buffer.len()
                &&& 0 < self.offset
                &&& self.bytes_to_read <= self.offset
            },
        }
    }

    /// The reassembler after one more byte.
    ///
    /// While it waits for a header, a byte that is not the next byte of the
    /// magic empties the buffer. When the header is complete, its length
    /// field says how many payload bytes follow; a length that the buffer
    /// cannot hold is rejected, and the reassembler waits for the next
    /// header. Payload bytes are stored until the announced length is
    /// reached. A complete payload stays until it is taken; bytes that arrive
    /// before that are dropped.
    pub open spec fn step(self, byte: u8) -> UartView {
        let capacity = self.buffer.len() as int;
        match self.state {
            UartState::AwaitingHeader => {
                if self.offset < 3 && byte != HEADER@[self.offset] {
                    Self::idle(capacity)
                } else {
                    let buffer = self.buffer.update(self.offset, byte);
                    if self.offset + 1 >= HEADER_LEN {
                        let length = length_field(buffer[3], buffer[4]);
                        if buffer[0] == 85 && buffer[1] == 77 && buffer[2] == 88 && length
                            <= capacity {
                            UartView {
                                state: UartState::ReceivingCommand,
                                buffer: zeros(capacity),
                                offset: 0,
                                bytes_to_read: length,
                            }
                        } else {
                            Self::idle(capacity)
                        }
                    } else {
                        UartView { buffer, offset: self.offset + 1, ..self }
                    }
                }
            },
            UartState::ReceivingCommand => {
                UartView {
                    state: if self.offset + 1 >= self.bytes_to_read {
                        UartState::CommandReceived
                    } else {
                        UartState::ReceivingCommand
                    },
                    buffer: self.buffer.update(self.offset, byte),
                    offset: self.offset + 1,
                    ..self
                }
            },
            UartState::CommandReceived => self,
        }
    }

    /// The reassembler after a run of bytes.
    pub open spec fn run(self, bytes: Seq<u8>) -> UartView
        decreases bytes.len(),
    {
        if bytes.len() == 0 {
            self
        } else {
            self.run(bytes.drop_last()).step(bytes.last())
        }
    }

    /// What `get_command` hands out: the buffer, if a payload is complete.
    pub open spec fn command(self) -> Option<Seq<u8>> {
        if self.state == UartState::CommandReceived {
            Some(self.buffer)
        } else {
            None
        }
    }

    /// The reassembler after `get_command`.
    pub open spec fn taken(self) -> UartView {
        if self.state == UartState::CommandReceived {
            Self::idle(self.buffer.len() as int)
        } else {
            self
        }
    }
}

impl<const RX_BUFFER_SIZE: usize> View for UartController<RX_BUFFER_SIZE> {
    type V = UartView;

    closed spec fn view(&self) -> UartView {
        UartView {
            state: self.state,
            buffer: self.rx_buf@,
            offset: self.rx_offset as int,
            bytes_to_read: self.bytes_to_read as int,
        }
    }
}

impl<const RX_BUFFER_SIZE: usize> UartController<RX_BUFFER_SIZE> {
    pub open spec fn wf(&self) -> bool {
        &&& self@.wf()
        &&& self@.buffer.len() == RX_BUFFER_SIZE
    }

    /// A reassembler that waits for its first header. The buffer has to hold
    /// at least a header.
    pub fn new() -> (controller: Self)
        requires
            RX_BUFFER_SIZE >= HEADER_LEN,
        ensures
            controller@ == UartView::idle(RX_BUFFER_SIZE as int),
            controller.wf(),
    {
        let controller = UartController {
            rx_buf: [0; RX_BUFFER_SIZE],
            rx_offset: 0,
            bytes_to_read: 0,
            state: UartState::AwaitingHeader,
        };
        assert(controller@.buffer =~= zeros(RX_BUFFER_SIZE as int));
        controller
    }

    /// Takes the next byte of the stream. Never fails: what does not fit a
    /// frame is dropped without notice.
    pub fn read_byte(&mut self, byte: u8)
        requires
            old(self).wf(),
        ensures
            final(self)@ == old(self)@.step(byte),
            final(self).wf(),
    {
        match self.state {
            UartState::AwaitingHeader => {
                if self.rx_offset < 3 && byte != HEADER[self.rx_offset] {
                    self.reset();
                    return ;
                }
                self.rx_buf[self.rx_offset] = byte;
                self.rx_offset = self.rx_offset + 1;
                if self.rx_offset >= HEADER_LEN {
                    let length = (self.rx_buf[3] as usize) * 256 + (self.rx_buf[4] as usize);
                    let magic = self.rx_buf[0] == 85 && self.rx_buf[1] == 77 && self.rx_buf[2]
                        == 88;
                    self.reset();
                    if magic && length <= RX_BUFFER_SIZE {
                        self.bytes_to_read = length;
                        self.state = UartState::ReceivingCommand;
                    }
                }
            },
            UartState::ReceivingCommand => {
                self.rx_buf[self.rx_offset] = byte;
                self.rx_offset = self.rx_offset + 1;
                if self.rx_offset >= self.bytes_to_read {
                    self.state = UartState::CommandReceived;
                }
            },
            UartState::CommandReceived => {},
        }
    }

    /// Takes a run of bytes of the stream, in order.
    pub fn read_bytes(&mut self, bytes: &[u8])
        requires
            old(self).wf(),
        ensures
            final(self)@ == old(self)@.run(bytes@),
            final(self).wf(),
    {
        let mut i: usize = 0;
        while i < bytes.len()
            invariant
                0 <= i <= bytes@.len(),
                self.wf(),
                self@ == old(self)@.run(bytes@.subrange(0, i as int)),
            decreases bytes@.len() - i,
        {
            assert(bytes@.subrange(0, i + 1).drop_last() =~= bytes@.subrange(0, i as int));
            self.read_byte(bytes[i]);
            i = i + 1;
        }
        assert(bytes@.subrange(0, i as int) =~= bytes@);
    }

    /// Empties the buffer and waits for a header.
    pub fn reset(&mut self)
        ensures
            final(self)@ == UartView::idle(RX_BUFFER_SIZE as int),
            RX_BUFFER_SIZE >= HEADER_LEN ==> final(self).wf(),
    {
        self.rx_buf = [0; RX_BUFFER_SIZE];
        self.rx_offset = 0;
        self.bytes_to_read = 0;
        self.state = UartState::AwaitingHeader;
        assert(self@.buffer =~= zeros(RX_BUFFER_SIZE as int));
    }

    /// Hands out the buffer if a payload is complete, and then waits for the
    /// next header. The payload stands at the start of the buffer; the rest
    /// of the buffer is zero.
    pub fn get_command(&mut self) -> (command: Option<[u8; RX_BUFFER_SIZE]>)
        requires
            old(self).wf(),
        ensures
            final(self)@ == old(self)@.taken(),
            final(self).wf(),
            match old(self)@.command() {
                Some(buffer) => command matches Some(copy) && copy@ == buffer,
                None => command is None,
            },
    {
        if let UartState::CommandReceived = self.state {
            let copy = self.rx_buf;
            self.reset();
            return Some(copy);
        }
        None
    }
}

/// The bytes of the frame that carries a response: the opcode and the
/// response as the payload, followed by the checksum of the payload. The
/// length field does not count the checksum.
pub open spec fn response_frame(opcode: u8, response: Seq<u8>) -> Seq<u8> {
    frame(seq![opcode] + response).push(crc8_ccitt_spec(seq![opcode] + response))
}

/// Frames a response for the way back to the host.
pub fn encode_response(opcode: u8, response: &[u8]) -> (bytes: Vec<u8>)
    requires
        response@.len() < MAX_FRAME_PAYLOAD,
    ensures
        bytes@ == response_frame(opcode, response@),
{
    let length: usize = response.len() + 1;
    let mut bytes: Vec<u8> = Vec::new();
    bytes.push(85);
    bytes.push(77);
    bytes.push(88);
    bytes.push((length / 256) as u8);
    bytes.push((length % 256) as u8);
    bytes.push(opcode);
    let mut i: usize = 0;
    while i < response.len()
        invariant
            0 <= i <= response@.len(),
            length == response@.len() + 1,
            bytes@ == frame(seq![opcode] + response@).subrange(0, HEADER_LEN + 1 + i),
        decreases response@.len() - i,
    {
        bytes.push(response[i]);
        i = i + 1;
    }
    bytes.push(crc8_ccitt_response(opcode, response));
    assert(bytes@ =~= response_frame(opcode, response@));
    bytes
}

/// The reassembler after one more byte at the end of a run.
pub proof fn lemma_run_push(start: UartView, bytes: Seq<u8>, byte: u8)
    ensures
        start.run(bytes.push(byte)) == start.run(bytes).step(byte),
{
    assert(bytes.push(byte).drop_last() =~= bytes);
    assert(bytes.push(byte).last() == byte);
}

/// Feeding a stream in two parts is the same as feeding it at once. So it
/// makes no difference how a stream is cut into chunks, down to single bytes.
pub proof fn lemma_run_concat(start: UartView, head: Seq<u8>, tail: Seq<u8>)
    ensures
        start.run(head + tail) == start.run(head).run(tail),
    decreases tail.len(),
{
    if tail.len() == 0 {
        assert(head + tail =~= head);
    } else {
        lemma_run_concat(start, head, tail.drop_last());
        assert((head + tail).drop_last() =~= head + tail.drop_last());
        assert((head + tail).last() == tail.last());
    }
}

/// A byte keeps the reassembler well-formed and the size of its buffer.
pub proof fn lemma_step_keeps_wf(start: UartView, byte: u8)
    requires
        start.wf(),
    ensures
        start.step(byte).wf(),
        start.step(byte).buffer.len() == start.buffer.len(),
{
}

/// A run of bytes keeps the reassembler well-formed and the size of its buffer.
pub proof fn lemma_run_keeps_wf(start: UartView, bytes: Seq<u8>)
    requires
        start.wf(),
    ensures
        start.run(bytes).wf(),
        start.run(bytes).buffer.len() == start.buffer.len(),
    decreases bytes.len(),
{
    if bytes.len() > 0 {
        lemma_run_keeps_wf(start, bytes.drop_last());
        lemma_step_keeps_wf(start.run(bytes.drop_last()), bytes.last());
    }
}

/// The reassembler that has received the first `received` bytes of a payload.
pub open spec fn receiving(capacity: int, payload: Seq<u8>, received: int) -> UartView {
    UartView {
        state: if received >= payload.len() && received > 0 {
            UartState::CommandReceived
        } else {
            UartState::ReceivingCommand
        },
        buffer: payload.subrange(0, received) + zeros(capacity - received),
        offset: received,
        bytes_to_read: payload.len() as int,
    }
}

/// A reassembler that awaits a frame has received its header after the five
/// bytes of it.
proof fn lemma_header_received(start: UartView, payload: Seq<u8>)
    requires
        start.wf(),
        start.awaits_frame(),
        payload.len() <= start.buffer.len(),
        payload.len() <= MAX_FRAME_PAYLOAD,
    ensures
        start.run(frame(payload).subrange(0, HEADER_LEN as int)) == receiving(
            start.buffer.len() as int,
            payload,
            0,
        ),
{
    let capacity = start.buffer.len() as int;
    let header = frame(payload).subrange(0, HEADER_LEN as int);
    let high = (payload.len() / 256) as u8;
    let low = (payload.len() % 256) as u8;
    let none = Seq::<u8>::empty();
    assert(header =~= none.push(85).push(77).push(88).push(high).push(low));
    assert(start.run(none) == start);
    lemma_run_push(start, none, 85);
    lemma_run_push(start, none.push(85), 77);
    lemma_run_push(start, none.push(85).push(77), 88);
    lemma_run_push(start, none.push(85).push(77).push(88), high);
    lemma_run_push(start, none.push(85).push(77).push(88).push(high), low);
    let s1 = start.step(85);
    let s2 = s1.step(77);
    let s3 = s2.step(88);
    let s4 = s3.step(high);
    let s5 = s4.step(low);
    assert(s1.offset == 1 && s1.buffer[0] == 85 && s1.state == UartState::AwaitingHeader);
    assert(s2.offset == 2 && s2.buffer[0] == 85 && s2.buffer[1] == 77 && s2.state
        == UartState::AwaitingHeader);
    assert(s3.offset == 3 && s3.buffer[0] == 85 && s3.buffer[1] == 77 && s3.buffer[2] == 88
        && s3.state == UartState::AwaitingHeader);
    assert(s4.offset == 4 && s4.buffer[0] == 85 && s4.buffer[1] == 77 && s4.buffer[2] == 88
        && s4.buffer[3] == high && s4.state == UartState::AwaitingHeader);
    assert(length_field(high, low) == payload.len());
    assert(payload.subrange(0, 0) + zeros(capacity) =~= zeros(capacity));
    assert(s5 == receiving(capacity, payload, 0));
}

/// A reassembler that has received a header stores the payload byte by byte.
proof fn lemma_payload_received(capacity: int, payload: Seq<u8>, received: int)
    requires
        0 <= received <= payload.len() <= capacity,
    ensures
        receiving(capacity, payload, 0).run(payload.subrange(0, received)) == receiving(
            capacity,
            payload,
            received,
        ),
    decreases received,
{
    let start = receiving(capacity, payload, 0);
    if received > 0 {
        lemma_payload_received(capacity, payload, received - 1);
        let before = receiving(capacity, payload, received - 1);
        let byte = payload[received - 1];
        assert(payload.subrange(0, received).drop_last() =~= payload.subrange(0, received - 1));
        assert(payload.subrange(0, received).last() == byte);
        assert(before.state == UartState::ReceivingCommand);
        assert(before.buffer.update(received - 1, byte) =~= payload.subrange(0, received) + zeros(
            capacity - received,
        ));
    } else {
        assert(payload.subrange(0, 0) =~= Seq::<u8>::empty());
    }
}

/// Whatever was fed before: once the reassembler awaits a frame, a frame with
/// a payload that is not empty and fits the buffer is delivered. After its
/// last byte `get_command` hands out the payload, followed by zeros up to the
/// size of the buffer.
pub proof fn lemma_frame_delivered(start: UartView, junk: Seq<u8>, payload: Seq<u8>)
    requires
        start.wf(),
        start.run(junk).awaits_frame(),
        0 < payload.len() <= start.buffer.len(),
        payload.len() <= MAX_FRAME_PAYLOAD,
    ensures
        start.run(junk + frame(payload)).command() == Some(
            payload + zeros(start.buffer.len() - payload.len()),
        ),
        start.run(junk + frame(payload)).taken() == UartView::idle(start.buffer.len() as int),
{
    let capacity = start.buffer.len() as int;
    let synced = start.run(junk);
    let bytes = frame(payload);
    let header = bytes.subrange(0, HEADER_LEN as int);
    lemma_run_keeps_wf(start, junk);
    lemma_run_concat(start, junk, bytes);
    assert(bytes =~= header + payload);
    lemma_run_concat(synced, header, payload);
    lemma_header_received(synced, payload);
    lemma_payload_received(capacity, payload, payload.len() as int);
    assert(payload.subrange(0, payload.len() as int) =~= payload);
}

/// A response that the device frames can be read back by a reassembler whose
/// buffer holds it: the payload it delivers is the opcode followed by the
/// response. The checksum is not part of the payload.
pub proof fn lemma_response_round_trip(start: UartView, opcode: u8, response: Seq<u8>)
    requires
        start.wf(),
        start.awaits_frame(),
        response.len() < start.buffer.len(),
        response.len() < MAX_FRAME_PAYLOAD,
    ensures
        start.run(response_frame(opcode, response)).command() == Some(
            seq![opcode] + response + zeros(start.buffer.len() - response.len() - 1),
        ),
{
    let payload = seq![opcode] + response;
    let crc = crc8_ccitt_spec(payload);
    assert(start.run(Seq::empty()) == start);
    lemma_frame_delivered(start, Seq::empty(), payload);
    assert(Seq::<u8>::empty() + frame(payload) =~= frame(payload));
    lemma_run_push(start, frame(payload), crc);
}

} // verus!
