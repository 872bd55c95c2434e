//! WebSocket frames and their layout on the wire.
//!
//! A frame starts with a byte that holds the final-fragment bit, three reserved bits and the
//! opcode, and a byte that holds the mask bit and a seven-bit length. A length of 126 or 127 is
//! followed by the real length in two or eight bytes, a set mask bit by a four-byte key. The
//! payload closes the frame.
use vstd::prelude::*;
use vstd::slice::slice_to_vec;

use crate::bytes::{append_bytes, be_bytes, be_value, fits_bytes, masked_with};
use crate::bytes::{law_number_read, lemma_be_bytes_len, lemma_be_round_trip};
use crate::bytes::{lemma_be_value_local, lemma_mask_twice};

verus! {

/// Whether a frame carries data or controls the connection.
#[derive(Clone, Copy, Debug, PartialEq, Eq, Structural)]
pub enum FrameType {
    Data,
    Control,
}

/// What a frame is for.
#[derive(Clone, Copy, Debug, PartialEq, Eq, Structural)]
pub enum OpType {
    Continuation,
    Text,
    Binary,
    Close,
    Ping,
    Pong,
}

/// One frame.
#[derive(Debug)]
pub struct WebSocketFrame {
    fin: bool,
    frame_type: FrameType,
    op_type: OpType,
    payload: Vec<u8>,
}

/// What a frame holds.
#[verifier::ext_equal]
pub struct FrameModel {
    pub fin: bool,
    pub frame_type: FrameType,
    pub op_type: OpType,
    pub payload: Seq<u8>,
}

impl View for WebSocketFrame {
    type V = FrameModel;

    closed spec fn view(&self) -> FrameModel {
        FrameModel {
            fin: self.fin,
            frame_type: self.frame_type,
            op_type: self.op_type,
            payload: self.payload@,
        }
    }
}

/// The opcode that stands for `op_type`.
pub open spec fn op_code(op_type: OpType) -> u8 {
    match op_type {
        OpType::Continuation => 0,
        OpType::Text => 1,
        OpType::Binary => 2,
        OpType::Close => 8,
        OpType::Ping => 9,
        OpType::Pong => 10,
    }
}

/// The type of the frames that are for `op_type`.
pub open spec fn type_of(op_type: OpType) -> FrameType {
    match op_type {
        OpType::Continuation | OpType::Text | OpType::Binary => FrameType::Data,
        OpType::Close | OpType::Ping | OpType::Pong => FrameType::Control,
    }
}

/// What the opcode `code` stands for, if it is one that is in use.
pub open spec fn op_of(code: u8) -> Option<OpType> {
    match code {
        0 => Some(OpType::Continuation),
        1 => Some(OpType::Text),
        2 => Some(OpType::Binary),
        8 => Some(OpType::Close),
        9 => Some(OpType::Ping),
        10 => Some(OpType::Pong),
        _ => None,
    }
}

/// The bytes that announce a payload of `len` bytes, in the shortest of the three forms. `mask`
/// is 128 where a mask key follows and 0 where none does.
pub open spec fn length_bytes(len: nat, mask: u8) -> Seq<u8> {
    if len < 126 {
        seq![(mask + len) as u8]
    } else if len < 65536 {
        seq![(mask + 126) as u8] + be_bytes(len, 2)
    } else {
        seq![(mask + 127) as u8] + be_bytes(len, 8)
    }
}

/// The first byte of a frame: the final-fragment bit over the opcode.
pub open spec fn first_byte(frame: FrameModel) -> u8 {
    ((if frame.fin { 128int } else { 0 }) + op_code(frame.op_type)) as u8
}

/// A frame as a server sends it, without a mask.
pub open spec fn frame_bytes(frame: FrameModel) -> Seq<u8> {
    seq![first_byte(frame)] + length_bytes(frame.payload.len(), 0) + frame.payload
}

/// A frame as a client sends it, its payload masked with the four bytes of `key`.
pub open spec fn masked_frame_bytes(frame: FrameModel, key: Seq<u8>) -> Seq<u8> {
    seq![first_byte(frame)] + length_bytes(frame.payload.len(), 128) + key + masked_with(
        frame.payload,
        key,
    )
}

/// How many bytes follow the second byte of a frame to give the real length.
pub open spec fn extra_length_bytes(second: u8) -> nat {
    if second % 128 == 126 {
        2
    } else if second % 128 == 127 {
        8
    } else {
        0
    }
}

/// How many bytes the mask key takes.
pub open spec fn key_bytes(second: u8) -> nat {
    if second >= 128 {
        4
    } else {
        0
    }
}

/// Where the payload of the frame at the front of `bytes` starts.
pub open spec fn payload_start(bytes: Seq<u8>) -> nat {
    2 + extra_length_bytes(bytes[1]) + key_bytes(bytes[1])
}

/// How long the payload of the frame at the front of `bytes` is.
pub open spec fn payload_len(bytes: Seq<u8>) -> nat {
    if bytes[1] % 128 < 126 {
        (bytes[1] % 128) as nat
    } else {
        be_value(bytes, 2, extra_length_bytes(bytes[1]))
    }
}

/// Whether `bytes` starts with a whole frame that has no reserved bit set and an opcode in use.
pub open spec fn starts_with_frame(bytes: Seq<u8>) -> bool {
    &&& bytes.len() >= 2
    &&& (bytes[0] / 16) % 8 == 0
    &&& op_of(bytes[0] % 16) is Some
    &&& bytes.len() >= payload_start(bytes)
    &&& bytes.len() >= payload_start(bytes) + payload_len(bytes)
}

/// The frame at the front of `bytes`, its payload unmasked; what follows it does not count.
pub open spec fn parse_frame(bytes: Seq<u8>) -> Option<FrameModel> {
    if starts_with_frame(bytes) {
        let op_type = op_of(bytes[0] % 16).unwrap();
        let start = payload_start(bytes) as int;
        let carried = bytes.subrange(start, start + payload_len(bytes));
        Some(
            FrameModel {
                fin: bytes[0] >= 128,
                frame_type: type_of(op_type),
                op_type,
                payload: if bytes[1] >= 128 {
                    masked_with(carried, bytes.subrange(start - 4, start))
                } else {
                    carried
                },
            },
        )
    } else {
        None
    }
}

/// Turns an opcode into what it stands for.
fn decode_op(code: u8) -> (op_type: Option<OpType>)
    ensures
        op_type == op_of(code),
{
    match code {
        0 => Some(OpType::Continuation),
        1 => Some(OpType::Text),
        2 => Some(OpType::Binary),
        8 => Some(OpType::Close),
        9 => Some(OpType::Ping),
        10 => Some(OpType::Pong),
        _ => None,
    }
}

/// Reads the length that the eight bytes of `bytes` from `at` on spell.
fn read_u64(bytes: &[u8], at: usize) -> (n: u64)
    requires
        at + 8 <= bytes@.len(),
    ensures
        n == be_value(bytes@, at as int, 8),
{
    reveal_with_fuel(be_value, 9);
    let n: u64 = bytes[at] as u64;
    let n: u64 = n * 256 + bytes[at + 1] as u64;
    let n: u64 = n * 256 + bytes[at + 2] as u64;
    let n: u64 = n * 256 + bytes[at + 3] as u64;
    let n: u64 = n * 256 + bytes[at + 4] as u64;
    let n: u64 = n * 256 + bytes[at + 5] as u64;
    let n: u64 = n * 256 + bytes[at + 6] as u64;
    n * 256 + bytes[at + 7] as u64
}

/// Appends the eight bytes that spell `n`.
fn append_u64(buf: &mut Vec<u8>, n: u64)
    ensures
        final(buf)@ == old(buf)@ + be_bytes(n as nat, 8),
{
    reveal_with_fuel(be_bytes, 9);
    let n7: u64 = n / 256;
    let n6: u64 = n7 / 256;
    let n5: u64 = n6 / 256;
    let n4: u64 = n5 / 256;
    let n3: u64 = n4 / 256;
    let n2: u64 = n3 / 256;
    let n1: u64 = n2 / 256;
    buf.push((n1 % 256) as u8);
    buf.push((n2 % 256) as u8);
    buf.push((n3 % 256) as u8);
    buf.push((n4 % 256) as u8);
    buf.push((n5 % 256) as u8);
    buf.push((n6 % 256) as u8);
    buf.push((n7 % 256) as u8);
    buf.push((n % 256) as u8);
    assert(buf@ =~= old(buf)@ + be_bytes(n as nat, 8));
}

impl WebSocketFrame {
    /// An unfragmented frame.
    pub fn new(payload: &[u8], frame_type: FrameType, op_type: OpType) -> (frame: WebSocketFrame)
        ensures
            frame@ == (FrameModel { fin: true, frame_type, op_type, payload: payload@ }),
    {
        let mut copy: Vec<u8> = Vec::new();
        append_bytes(&mut copy, payload);
        assert(copy@ =~= payload@);
        WebSocketFrame { fin: true, frame_type, op_type, payload: copy }
    }

    pub fn op_type(&self) -> (op_type: OpType)
        ensures
            op_type == self@.op_type,
    {
        self.op_type
    }

    /// A copy of the payload.
    pub fn payload(&self) -> (payload: Vec<u8>)
        ensures
            payload@ == self@.payload,
    {
        slice_to_vec(self.payload.as_slice())
    }

    /// The frame as a server puts it on the wire.
    pub fn to_bytes(&self) -> (bytes: Vec<u8>)
        ensures
            bytes@ == frame_bytes(self@),
    {
        let code: u8 = match self.op_type {
            OpType::Continuation => 0,
            OpType::Text => 1,
            OpType::Binary => 2,
            OpType::Close => 8,
            OpType::Ping => 9,
            OpType::Pong => 10,
        };
        let mut bytes: Vec<u8> = Vec::new();
        bytes.push(if self.fin { 128 + code } else { code });
        let len: usize = self.payload.len();
        if len < 126 {
            bytes.push(len as u8);
        } else if len < 65536 {
            reveal_with_fuel(be_bytes, 3);
            bytes.push(126);
            bytes.push((len / 256) as u8);
            bytes.push((len % 256) as u8);
        } else {
            bytes.push(127);
            append_u64(&mut bytes, len as u64);
        }
        assert(bytes@ =~= seq![first_byte(self@)] + length_bytes(self@.payload.len(), 0));
        append_bytes(&mut bytes, self.payload.as_slice());
        bytes
    }
}

/// Makes frames out of what came over the wire.
pub struct WebSocketFrameBuilder;

impl WebSocketFrameBuilder {
    /// The frame at the front of `bytes`, if there is a whole one that can be understood.
    pub fn from_bytes(bytes: &[u8]) -> (frame: Option<Box<WebSocketFrame>>)
        ensures
            match frame {
                Some(frame) => parse_frame(bytes@) == Some(frame@),
                None => parse_frame(bytes@) is None,
            },
    {
        if bytes.len() < 2 {
            return None;
        }
        let first: u8 = bytes[0];
        let second: u8 = bytes[1];
        if (first / 16) % 8 != 0 {
            return None;
        }
        let op_type = match decode_op(first % 16) {
            Some(op_type) => op_type,
            None => {
                return None;
            },
        };
        let frame_type = match op_type {
            OpType::Continuation | OpType::Text | OpType::Binary => FrameType::Data,
            OpType::Close | OpType::Ping | OpType::Pong => FrameType::Control,
        };
        let extra: usize = if second % 128 == 126 {
            2
        } else if second % 128 == 127 {
            8
        } else {
            0
        };
        let start: usize = 2 + extra + (if second >= 128 { 4usize } else { 0 });
        if bytes.len() < start {
            return None;
        }
        let len: u64 = if extra == 0 {
            (second % 128) as u64
        } else if extra == 2 {
            reveal_with_fuel(be_value, 3);
            bytes[2] as u64 * 256 + bytes[3] as u64
        } else {
            read_u64(bytes, 2)
        };
        if ((bytes.len() - start) as u64) < len {
            return None;
        }
        let len: usize = len as usize;
        let mut payload: Vec<u8> = Vec::new();
        let mut i: usize = 0;
        let ghost carried = bytes@.subrange(start as int, start + len);
        let ghost key = bytes@.subrange(start - 4, start as int);
        let ghost whole = if second >= 128 {
            masked_with(carried, key)
        } else {
            carried
        };
        while i < len
            invariant
                i <= len,
                start + len <= bytes@.len(),
                start + len <= usize::MAX,
                second >= 128 ==> start >= 4,
                carried == bytes@.subrange(start as int, start + len),
                key == bytes@.subrange(start - 4, start as int),
                whole == (if second >= 128 {
                    masked_with(carried, key)
                } else {
                    carried
                }),
                payload@ == whole.subrange(0, i as int),
            decreases len - i,
        {
            let byte: u8 = bytes[start + i];
            if second >= 128 {
                payload.push(byte ^ bytes[start - 4 + i % 4]);
            } else {
                payload.push(byte);
            }
            assert(payload@ =~= whole.subrange(0, i + 1));
            i = i + 1;
        }
        assert(payload@ =~= whole);
        Some(
            Box::new(WebSocketFrame { fin: first >= 128, frame_type, op_type, payload }),
        )
    }
}

/// A frame header tells the opcode, the final-fragment bit and the length that went into it.
proof fn lemma_header(frame: FrameModel, mask: u8, after: Seq<u8>)
    requires
        mask == 0 || mask == 128,
        frame.payload.len() <= u64::MAX,
    ensures
        ({
            let len = frame.payload.len();
            let bytes = seq![first_byte(frame)] + length_bytes(len, mask) + after;
            let head = 1 + length_bytes(len, mask).len();
            &&& bytes.len() >= 2
            &&& (bytes[0] / 16) % 8 == 0
            &&& op_of(bytes[0] % 16) == Some(frame.op_type)
            &&& (bytes[0] >= 128) == frame.fin
            &&& (bytes[1] >= 128) == (mask == 128)
            &&& payload_start(bytes) == head + key_bytes(bytes[1])
            &&& payload_len(bytes) == len
        }),
{
    let len = frame.payload.len();
    let bytes = seq![first_byte(frame)] + length_bytes(len, mask) + after;
    if len < 126 {
    } else if len < 65536 {
        assert(fits_bytes(len, 2)) by {
            reveal_with_fuel(fits_bytes, 3);
        }
        lemma_be_bytes_len(len, 2);
        lemma_be_round_trip(len, 2);
        assert forall|k: int| 0 <= k < 2 implies #[trigger] bytes[2 + k] == be_bytes(len, 2)[0
            + k] by {}
        lemma_be_value_local(bytes, 2, be_bytes(len, 2), 0, 2);
    } else {
        assert(fits_bytes(len, 8)) by {
            reveal_with_fuel(fits_bytes, 9);
        }
        lemma_be_bytes_len(len, 8);
        lemma_be_round_trip(len, 8);
        assert forall|k: int| 0 <= k < 8 implies #[trigger] bytes[2 + k] == be_bytes(len, 8)[0
            + k] by {}
        lemma_be_value_local(bytes, 2, be_bytes(len, 8), 0, 8);
    }
}

/// Reading a frame that was written gives the frame back, whatever follows it on the wire.
pub proof fn law_frame_round_trip(frame: FrameModel, rest: Seq<u8>)
    requires
        frame.frame_type == type_of(frame.op_type),
        frame.payload.len() <= u64::MAX,
    ensures
        parse_frame(frame_bytes(frame) + rest) == Some(frame),
{
    let after = frame.payload + rest;
    let bytes = frame_bytes(frame) + rest;
    assert(bytes =~= seq![first_byte(frame)] + length_bytes(frame.payload.len(), 0) + after);
    lemma_header(frame, 0, after);
    let start = payload_start(bytes) as int;
    assert(bytes.subrange(start, start + frame.payload.len()) =~= frame.payload);
}

/// Reading a frame that a client masked, with any key, gives the frame that the client meant.
pub proof fn law_masked_frame_read(frame: FrameModel, key: Seq<u8>, rest: Seq<u8>)
    requires
        frame.frame_type == type_of(frame.op_type),
        frame.payload.len() <= u64::MAX,
        key.len() == 4,
    ensures
        parse_frame(masked_frame_bytes(frame, key) + rest) == Some(frame),
{
    let hidden = masked_with(frame.payload, key);
    let after = key + hidden + rest;
    let bytes = masked_frame_bytes(frame, key) + rest;
    assert(bytes =~= seq![first_byte(frame)] + length_bytes(frame.payload.len(), 128) + after);
    lemma_header(frame, 128, after);
    let start = payload_start(bytes) as int;
    assert(bytes.subrange(start - 4, start) =~= key);
    assert(bytes.subrange(start, start + frame.payload.len()) =~= hidden);
    lemma_mask_twice(frame.payload, key);
}

/// Cutting a frame short leaves less than its header announces.
proof fn lemma_cut(bytes: Seq<u8>, cut: int)
    requires
        2 <= bytes.len() <= payload_start(bytes) + payload_len(bytes),
        0 <= cut < bytes.len(),
    ensures
        parse_frame(bytes.take(cut)) is None,
{
    let part = bytes.take(cut);
    if cut >= 2 {
        assert(part[1] == bytes[1]);
        if cut >= payload_start(bytes) {
            let extra = extra_length_bytes(bytes[1]);
            assert forall|k: int| 0 <= k < extra implies #[trigger] part[2 + k] == bytes[2
                + k] by {}
            lemma_be_value_local(part, 2, bytes, 2, extra);
        }
    }
}

/// Of a frame that came only in part nothing is read, masked with any key or not.
pub proof fn law_partial_frame_unread(frame: FrameModel, key: Seq<u8>, cut: int)
    requires
        frame.payload.len() <= u64::MAX,
        key.len() == 4,
        0 <= cut,
    ensures
        cut < frame_bytes(frame).len() ==> parse_frame(frame_bytes(frame).take(cut)) is None,
        cut < masked_frame_bytes(frame, key).len() ==> parse_frame(
            masked_frame_bytes(frame, key).take(cut),
        ) is None,
{
    let bytes = frame_bytes(frame);
    lemma_header(frame, 0, frame.payload);
    if cut < bytes.len() {
        lemma_cut(bytes, cut);
    }
    let hidden = masked_with(frame.payload, key);
    let masked = masked_frame_bytes(frame, key);
    assert(masked =~= seq![first_byte(frame)] + length_bytes(frame.payload.len(), 128) + (key
        + hidden));
    lemma_header(frame, 128, key + hidden);
    if cut < masked.len() {
        lemma_cut(masked, cut);
    }
}

/// How a frame lies on the wire: the final-fragment bit and the opcode, the length of the payload
/// in the shortest of its three forms, the highest byte first, and then the payload itself, with
/// nothing before, between or behind.
pub proof fn law_frame_layout(frame: FrameModel)
    requires
        frame.payload.len() <= u64::MAX,
    ensures
        ({
            let bytes = frame_bytes(frame);
            let len = frame.payload.len();
            let head: int = if len < 126 {
                2
            } else if len < 65536 {
                4
            } else {
                10
            };
            &&& bytes.len() == head + len
            &&& bytes[0] == (if frame.fin { 0x80int } else { 0 }) + match frame.op_type {
                OpType::Continuation => 0int,
                OpType::Text => 1,
                OpType::Binary => 2,
                OpType::Close => 8,
                OpType::Ping => 9,
                OpType::Pong => 10,
            }
            &&& len < 126 ==> bytes[1] == len
            &&& 126 <= len < 65536 ==> bytes[1] == 126 && bytes[2] * 0x100 + bytes[3] == len
            &&& len >= 65536 ==> bytes[1] == 127 && bytes[2] * 0x1_00_0000_0000_0000 + bytes[3]
                * 0x1_0000_0000_0000 + bytes[4] * 0x100_0000_0000 + bytes[5] * 0x1_0000_0000
                + bytes[6] * 0x100_0000 + bytes[7] * 0x1_0000 + bytes[8] * 0x100 + bytes[9] == len
            &&& forall|i: int| 0 <= i < len ==> bytes[head + i] == #[trigger] frame.payload[i]
        }),
{
    let bytes = frame_bytes(frame);
    lemma_header(frame, 0, frame.payload);
    law_number_read(bytes, 2);
    if frame.payload.len() >= 126 {
        lemma_be_bytes_len(frame.payload.len(), 2);
        lemma_be_bytes_len(frame.payload.len(), 8);
    }
}

/// What is read at the front of any bytes. There is a frame where its header, with no reserved bit
/// set and an opcode in use, and as many bytes behind it as it announces are there. The payload of
/// an unmasked frame is those bytes; of a masked one it is each of them combined with the byte of
/// the key, which stands before them, whose place is its own place modulo four.
pub proof fn law_frame_read(bytes: Seq<u8>)
    ensures
        ({
            let code = bytes[0] % 16;
            let short = bytes[1] % 128;
            let masked = bytes[1] >= 128;
            let extra: int = if short == 126 {
                2
            } else if short == 127 {
                8
            } else {
                0
            };
            let start = 2 + extra + if masked {
                4int
            } else {
                0
            };
            let len: int = if short == 126 {
                bytes[2] * 0x100 + bytes[3]
            } else if short == 127 {
                bytes[2] * 0x1_00_0000_0000_0000 + bytes[3] * 0x1_0000_0000_0000 + bytes[4]
                    * 0x100_0000_0000 + bytes[5] * 0x1_0000_0000 + bytes[6] * 0x100_0000 + bytes[7]
                    * 0x1_0000 + bytes[8] * 0x100 + bytes[9]
            } else {
                short as int
            };
            &&& parse_frame(bytes) is Some <==> {
                &&& bytes.len() >= 2
                &&& bytes[0] / 16 == 0 || bytes[0] / 16 == 8
                &&& code <= 2 || 8 <= code <= 10
                &&& bytes.len() >= start + len
            }
            &&& parse_frame(bytes) matches Some(frame) ==> {
                &&& frame.fin <==> bytes[0] >= 128
                &&& frame.op_type == if code == 0 {
                    OpType::Continuation
                } else if code == 1 {
                    OpType::Text
                } else if code == 2 {
                    OpType::Binary
                } else if code == 8 {
                    OpType::Close
                } else if code == 9 {
                    OpType::Ping
                } else {
                    OpType::Pong
                }
                &&& frame.frame_type == if code < 8 {
                    FrameType::Data
                } else {
                    FrameType::Control
                }
                &&& frame.payload.len() == len
                &&& !masked ==> forall|i: int|
                    0 <= i < len ==> #[trigger] frame.payload[i] == bytes[start + i]
                &&& masked ==> forall|i: int|
                    0 <= i < len ==> #[trigger] frame.payload[i] == bytes[start + i] ^ bytes[start
                        - 4 + i % 4]
            }
        }),
{
    law_number_read(bytes, 2);
}

} // verus!
