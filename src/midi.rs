use vstd::prelude::*;

verus! {

pub const SYSEX_START: u8 = 0xf0;

pub const SYSEX_END: u8 = 0xf7;

/// Universal non-realtime SysEx id.
pub const UNIVERSAL: u8 = 0x7e;

/// Line 6 manufacturer id, three bytes.
pub const VENDOR_0: u8 = 0x00;

pub const VENDOR_1: u8 = 0x01;

pub const VENDOR_2: u8 = 0x0c;

/// Device byte of POD 2.0 SysEx dump frames.
pub const POD_ID: u8 = 0x01;

/// Channel value that addresses every device.
pub const ALL_CHANNELS: u8 = 0x7f;

/// A MIDI message as the controller reads and writes it.
#[derive(Clone, Debug)]
pub enum MidiMessage {
    ControlChange { channel: u8, control: u8, value: u8 },
    UniversalDeviceInquiry { channel: u8 },
    UniversalDeviceInquiryResponse { channel: u8, family: u16, member: u16, ver: Vec<u8> },
    ProgramEditBufferDumpRequest,
    ProgramEditBufferDump { ver: u8, data: Vec<u8> },
    ProgramPatchDumpRequest { patch: u8 },
    ProgramPatchDump { patch: u8, ver: u8, data: Vec<u8> },
}

/// Why a frame could not be read as a message.
#[derive(Clone, Copy, Debug, PartialEq, Eq, Structural)]
pub enum CodecError {
    /// Empty, unterminated, or cut off inside a byte of payload.
    ShortFrame,
    /// A SysEx frame of another manufacturer or device.
    BadVendor,
    /// A status byte or SysEx opcode this codec does not know.
    UnknownOpcode,
    /// A frame of a known kind with the wrong number of bytes.
    BadLength { expected: usize, got: usize },
}

/// The mathematical form of a message: byte payloads as sequences.
pub enum MessageModel {
    ControlChange { channel: u8, control: u8, value: u8 },
    UniversalDeviceInquiry { channel: u8 },
    UniversalDeviceInquiryResponse { channel: u8, family: u16, member: u16, ver: Seq<u8> },
    ProgramEditBufferDumpRequest,
    ProgramEditBufferDump { ver: u8, data: Seq<u8> },
    ProgramPatchDumpRequest { patch: u8 },
    ProgramPatchDump { patch: u8, ver: u8, data: Seq<u8> },
}

impl View for MidiMessage {
    type V = MessageModel;

    open spec fn view(&self) -> MessageModel {
        match self {
            MidiMessage::ControlChange { channel, control, value } => MessageModel::ControlChange {
                channel: *channel,
                control: *control,
                value: *value,
            },
            MidiMessage::UniversalDeviceInquiry { channel } => MessageModel::UniversalDeviceInquiry {
                channel: *channel,
            },
            MidiMessage::UniversalDeviceInquiryResponse {
                channel,
                family,
                member,
                ver,
            } => MessageModel::UniversalDeviceInquiryResponse {
                channel: *channel,
                family: *family,
                member: *member,
                ver: ver@,
            },
            MidiMessage::ProgramEditBufferDumpRequest => MessageModel::ProgramEditBufferDumpRequest,
            MidiMessage::ProgramEditBufferDump { ver, data } => MessageModel::ProgramEditBufferDump {
                ver: *ver,
                data: data@,
            },
            MidiMessage::ProgramPatchDumpRequest { patch } => MessageModel::ProgramPatchDumpRequest {
                patch: *patch,
            },
            MidiMessage::ProgramPatchDump { patch, ver, data } => MessageModel::ProgramPatchDump {
                patch: *patch,
                ver: *ver,
                data: data@,
            },
        }
    }
}

/// Each byte as two bytes: high nibble, then low nibble.
pub open spec fn to_nibbles(d: Seq<u8>) -> Seq<u8> {
    Seq::new(
        2 * d.len(),
        |i: int|
            if i % 2 == 0 {
                d[i / 2] >> 4u8
            } else {
                d[i / 2] & 0x0fu8
            },
    )
}

/// Pairs of nibbles joined back into bytes; a trailing odd byte is ignored.
pub open spec fn from_nibbles(n: Seq<u8>) -> Seq<u8> {
    Seq::new(n.len() / 2, |i: int| join_nibbles(n[2 * i], n[2 * i + 1]))
}

pub open spec fn join_nibbles(hi: u8, lo: u8) -> u8 {
    ((hi & 0x0fu8) << 4u8) | (lo & 0x0fu8)
}

pub open spec fn is_7bit(b: u8) -> bool {
    b < 0x80
}

pub open spec fn all_7bit(s: Seq<u8>) -> bool {
    forall|i: int| 0 <= i < s.len() ==> is_7bit(#[trigger] s[i])
}

/// The low eight bits of `v`; a valid frame needs them below 0x80.
pub open spec fn low_byte(v: u16) -> u8 {
    (v & 0xffu16) as u8
}

/// The high eight bits of `v`; a valid frame needs them below 0x80.
pub open spec fn high_byte(v: u16) -> u8 {
    (v >> 8u16) as u8
}

pub open spec fn line6_header(op0: u8, op1: u8) -> Seq<u8> {
    seq![SYSEX_START, VENDOR_0, VENDOR_1, VENDOR_2, POD_ID, op0, op1]
}

impl MessageModel {
    /// A message that can travel on the wire: every field fits the 7-bit
    /// data bytes of its frame.
    pub open spec fn valid(self) -> bool {
        match self {
            MessageModel::ControlChange { channel, control, value } => channel < 16 && is_7bit(
                control,
            ) && is_7bit(value),
            MessageModel::UniversalDeviceInquiry { channel } => is_7bit(channel),
            MessageModel::UniversalDeviceInquiryResponse { channel, family, member, ver } => {
                &&& is_7bit(channel)
                &&& is_7bit(low_byte(family)) && is_7bit(high_byte(family))
                &&& is_7bit(low_byte(member)) && is_7bit(high_byte(member))
                &&& ver.len() == 4 && all_7bit(ver)
            },
            MessageModel::ProgramEditBufferDumpRequest => true,
            MessageModel::ProgramEditBufferDump { ver, data } => is_7bit(ver),
            MessageModel::ProgramPatchDumpRequest { patch } => is_7bit(patch),
            MessageModel::ProgramPatchDump { patch, ver, data } => is_7bit(patch) && is_7bit(ver),
        }
    }

    /// The bytes of the message's frame.
    pub open spec fn encode(self) -> Seq<u8> {
        match self {
            MessageModel::ControlChange { channel, control, value } => seq![
                0xb0u8 | (channel & 0x0fu8),
                control,
                value,
            ],
            MessageModel::UniversalDeviceInquiry { channel } => seq![
                SYSEX_START,
                UNIVERSAL,
                channel,
                0x06u8,
                0x01u8,
                SYSEX_END,
            ],
            MessageModel::UniversalDeviceInquiryResponse { channel, family, member, ver } => seq![
                SYSEX_START,
                UNIVERSAL,
                channel,
                0x06u8,
                0x02u8,
                VENDOR_0,
                VENDOR_1,
                VENDOR_2,
                low_byte(family),
                high_byte(family),
                low_byte(member),
                high_byte(member),
            ] + ver + seq![SYSEX_END],
            MessageModel::ProgramEditBufferDumpRequest => line6_header(0x00, 0x01) + seq![SYSEX_END],
            MessageModel::ProgramPatchDumpRequest { patch } => line6_header(0x00, 0x00) + seq![
                patch,
                SYSEX_END,
            ],
            MessageModel::ProgramEditBufferDump { ver, data } => line6_header(0x01, 0x01) + seq![ver]
                + to_nibbles(data) + seq![SYSEX_END],
            MessageModel::ProgramPatchDump { patch, ver, data } => line6_header(0x01, 0x00) + seq![
                patch,
                ver,
            ] + to_nibbles(data) + seq![SYSEX_END],
        }
    }
}

/// How a frame reads: the message it carries, or why it carries none.
pub open spec fn decode(b: Seq<u8>) -> Result<MessageModel, CodecError> {
    let n = b.len();
    if n == 0 {
        Err(CodecError::ShortFrame)
    } else if b[0] & 0xf0u8 == 0xb0u8 {
        if n == 3 {
            Ok(MessageModel::ControlChange { channel: b[0] & 0x0fu8, control: b[1], value: b[2] })
        } else {
            Err(CodecError::BadLength { expected: 3, got: n as usize })
        }
    } else if b[0] != SYSEX_START {
        Err(CodecError::UnknownOpcode)
    } else if n < 5 || b[n - 1] != SYSEX_END {
        Err(CodecError::ShortFrame)
    } else if b[1] == UNIVERSAL {
        if b[3] == 0x06 && b[4] == 0x01 {
            if n == 6 {
                Ok(MessageModel::UniversalDeviceInquiry { channel: b[2] })
            } else {
                Err(CodecError::BadLength { expected: 6, got: n as usize })
            }
        } else if b[3] == 0x06 && b[4] == 0x02 {
            if n != 17 {
                Err(CodecError::BadLength { expected: 17, got: n as usize })
            } else if b[5] != VENDOR_0 || b[6] != VENDOR_1 || b[7] != VENDOR_2 {
                Err(CodecError::BadVendor)
            } else {
                Ok(
                    MessageModel::UniversalDeviceInquiryResponse {
                        channel: b[2],
                        family: (b[8] as u16 | ((b[9] as u16) << 8u16)) as u16,
                        member: (b[10] as u16 | ((b[11] as u16) << 8u16)) as u16,
                        ver: b.subrange(12, 16),
                    },
                )
            }
        } else {
            Err(CodecError::UnknownOpcode)
        }
    } else if b[1] != VENDOR_0 || b[2] != VENDOR_1 || b[3] != VENDOR_2 || b[4] != POD_ID {
        Err(CodecError::BadVendor)
    } else if n < 8 {
        Err(CodecError::ShortFrame)
    } else if b[5] == 0x00 && b[6] == 0x01 {
        if n == 8 {
            Ok(MessageModel::ProgramEditBufferDumpRequest)
        } else {
            Err(CodecError::BadLength { expected: 8, got: n as usize })
        }
    } else if b[5] == 0x00 && b[6] == 0x00 {
        if n == 9 {
            Ok(MessageModel::ProgramPatchDumpRequest { patch: b[7] })
        } else {
            Err(CodecError::BadLength { expected: 9, got: n as usize })
        }
    } else if b[5] == 0x01 && b[6] == 0x01 {
        if n < 9 || (n - 9) % 2 != 0 {
            Err(CodecError::ShortFrame)
        } else {
            Ok(
                MessageModel::ProgramEditBufferDump {
                    ver: b[7],
                    data: from_nibbles(b.subrange(8, n - 1)),
                },
            )
        }
    } else if b[5] == 0x01 && b[6] == 0x00 {
        if n < 10 || (n - 10) % 2 != 0 {
            Err(CodecError::ShortFrame)
        } else {
            Ok(
                MessageModel::ProgramPatchDump {
                    patch: b[7],
                    ver: b[8],
                    data: from_nibbles(b.subrange(9, n - 1)),
                },
            )
        }
    } else {
        Err(CodecError::UnknownOpcode)
    }
}

fn push_line6_header(out: &mut Vec<u8>, op0: u8, op1: u8)
    ensures
        final(out)@ == old(out)@ + line6_header(op0, op1),
{
    out.push(SYSEX_START);
    out.push(VENDOR_0);
    out.push(VENDOR_1);
    out.push(VENDOR_2);
    out.push(POD_ID);
    out.push(op0);
    out.push(op1);
    assert(final(out)@ =~= old(out)@ + line6_header(op0, op1));
}

fn push_nibbles(out: &mut Vec<u8>, data: &Vec<u8>)
    ensures
        final(out)@ == old(out)@ + to_nibbles(data@),
{
    let ghost start = out@;
    let n = data.len();
    let mut i: usize = 0;
    while i < n
        invariant
            i <= n,
            n == data@.len(),
            out@ == start + to_nibbles(data@).subrange(0, 2 * i as int),
        decreases n - i,
    {
        let b = data[i];
        out.push(b >> 4u8);
        out.push(b & 0x0fu8);
        assert(to_nibbles(data@).subrange(0, 2 * (i + 1) as int) =~= to_nibbles(data@).subrange(
            0,
            2 * i as int,
        ).push(b >> 4u8).push(b & 0x0fu8));
        i = i + 1;
    }
    assert(to_nibbles(data@).subrange(0, 2 * n as int) =~= to_nibbles(data@));
}

fn push_all(out: &mut Vec<u8>, data: &Vec<u8>)
    ensures
        final(out)@ == old(out)@ + data@,
{
    let ghost start = out@;
    let n = data.len();
    let mut i: usize = 0;
    while i < n
        invariant
            i <= n,
            n == data@.len(),
            out@ == start + data@.subrange(0, i as int),
        decreases n - i,
    {
        out.push(data[i]);
        assert(data@.subrange(0, (i + 1) as int) =~= data@.subrange(0, i as int).push(data@[i as int]));
        i = i + 1;
    }
    assert(data@.subrange(0, n as int) =~= data@);
}

/// Joins nibble pairs of `b[start..end]` into bytes.
fn unnibble(b: &[u8], start: usize, end: usize) -> (r: Vec<u8>)
    requires
        start <= end <= b@.len(),
        (end - start) % 2 == 0,
    ensures
        r@ == from_nibbles(b@.subrange(start as int, end as int)),
{
    let ghost src = b@.subrange(start as int, end as int);
    let count = (end - start) / 2;
    let mut r: Vec<u8> = Vec::new();
    let mut k: usize = 0;
    while k < count
        invariant
            k <= count,
            count == (end - start) / 2,
            start <= end <= b@.len(),
            src == b@.subrange(start as int, end as int),
            r@.len() == k,
            forall|j: int| 0 <= j < k ==> r@[j] == join_nibbles(src[2 * j], src[2 * j + 1]),
        decreases count - k,
    {
        let hi = b[start + 2 * k];
        let lo = b[start + 2 * k + 1];
        r.push(((hi & 0x0fu8) << 4u8) | (lo & 0x0fu8));
        k = k + 1;
    }
    assert(r@ =~= from_nibbles(src));
    r
}

impl MidiMessage {
    /// The frame that carries the message.
    pub fn to_bytes(&self) -> (r: Vec<u8>)
        ensures
            r@ == self@.encode(),
    {
        let mut out: Vec<u8> = Vec::new();
        match self {
            MidiMessage::ControlChange { channel, control, value } => {
                out.push(0xb0u8 | (*channel & 0x0fu8));
                out.push(*control);
                out.push(*value);
            },
            MidiMessage::UniversalDeviceInquiry { channel } => {
                out.push(SYSEX_START);
                out.push(UNIVERSAL);
                out.push(*channel);
                out.push(0x06);
                out.push(0x01);
                out.push(SYSEX_END);
            },
            MidiMessage::UniversalDeviceInquiryResponse { channel, family, member, ver } => {
                out.push(SYSEX_START);
                out.push(UNIVERSAL);
                out.push(*channel);
                out.push(0x06);
                out.push(0x02);
                out.push(VENDOR_0);
                out.push(VENDOR_1);
                out.push(VENDOR_2);
                out.push((*family & 0xffu16) as u8);
                out.push((*family >> 8u16) as u8);
                out.push((*member & 0xffu16) as u8);
                out.push((*member >> 8u16) as u8);
                push_all(&mut out, ver);
                out.push(SYSEX_END);
            },
            MidiMessage::ProgramEditBufferDumpRequest => {
                push_line6_header(&mut out, 0x00, 0x01);
                out.push(SYSEX_END);
            },
            MidiMessage::ProgramPatchDumpRequest { patch } => {
                push_line6_header(&mut out, 0x00, 0x00);
                out.push(*patch);
                out.push(SYSEX_END);
            },
            MidiMessage::ProgramEditBufferDump { ver, data } => {
                push_line6_header(&mut out, 0x01, 0x01);
                out.push(*ver);
                push_nibbles(&mut out, data);
                out.push(SYSEX_END);
            },
            MidiMessage::ProgramPatchDump { patch, ver, data } => {
                push_line6_header(&mut out, 0x01, 0x00);
                out.push(*patch);
                out.push(*ver);
                push_nibbles(&mut out, data);
                out.push(SYSEX_END);
            },
        }
        assert(out@ =~= self@.encode());
        out
    }

    /// Reads one frame.
    pub fn from_bytes(b: &[u8]) -> (r: Result<MidiMessage, CodecError>)
        ensures
            match r {
                Ok(m) => decode(b@) == Ok::<MessageModel, CodecError>(m@),
                Err(e) => decode(b@) == Err::<MessageModel, CodecError>(e),
            },
    {
        let n = b.len();
        if n == 0 {
            return Err(CodecError::ShortFrame);
        }
        if b[0] & 0xf0u8 == 0xb0u8 {
            if n == 3 {
                return Ok(
                    MidiMessage::ControlChange { channel: b[0] & 0x0fu8, control: b[1], value: b[2] },
                );
            } else {
                return Err(CodecError::BadLength { expected: 3, got: n });
            }
        }
        if b[0] != SYSEX_START {
            return Err(CodecError::UnknownOpcode);
        }
        if n < 5 || b[n - 1] != SYSEX_END {
            return Err(CodecError::ShortFrame);
        }
        if b[1] == UNIVERSAL {
            if b[3] == 0x06 && b[4] == 0x01 {
                if n == 6 {
                    return Ok(MidiMessage::UniversalDeviceInquiry { channel: b[2] });
                } else {
                    return Err(CodecError::BadLength { expected: 6, got: n });
                }
            } else if b[3] == 0x06 && b[4] == 0x02 {
                if n != 17 {
                    return Err(CodecError::BadLength { expected: 17, got: n });
                } else if b[5] != VENDOR_0 || b[6] != VENDOR_1 || b[7] != VENDOR_2 {
                    return Err(CodecError::BadVendor);
                } else {
                    let mut ver: Vec<u8> = Vec::new();
                    ver.push(b[12]);
                    ver.push(b[13]);
                    ver.push(b[14]);
                    ver.push(b[15]);
                    assert(ver@ =~= b@.subrange(12, 16));
                    return Ok(
                        MidiMessage::UniversalDeviceInquiryResponse {
                            channel: b[2],
                            family: (b[8] as u16 | ((b[9] as u16) << 8u16)) as u16,
                            member: (b[10] as u16 | ((b[11] as u16) << 8u16)) as u16,
                            ver,
                        },
                    );
                }
            } else {
                return Err(CodecError::UnknownOpcode);
            }
        }
        if b[1] != VENDOR_0 || b[2] != VENDOR_1 || b[3] != VENDOR_2 || b[4] != POD_ID {
            return Err(CodecError::BadVendor);
        }
        if n < 8 {
            return Err(CodecError::ShortFrame);
        }
        if b[5] == 0x00 && b[6] == 0x01 {
            if n == 8 {
                Ok(MidiMessage::ProgramEditBufferDumpRequest)
            } else {
                Err(CodecError::BadLength { expected: 8, got: n })
            }
        } else if b[5] == 0x00 && b[6] == 0x00 {
            if n == 9 {
                Ok(MidiMessage::ProgramPatchDumpRequest { patch: b[7] })
            } else {
                Err(CodecError::BadLength { expected: 9, got: n })
            }
        } else if b[5] == 0x01 && b[6] == 0x01 {
            if n < 9 || (n - 9) % 2 != 0 {
                Err(CodecError::ShortFrame)
            } else {
                let data = unnibble(b, 8, n - 1);
                Ok(MidiMessage::ProgramEditBufferDump { ver: b[7], data })
            }
        } else if b[5] == 0x01 && b[6] == 0x00 {
            if n < 10 || (n - 10) % 2 != 0 {
                Err(CodecError::ShortFrame)
            } else {
                let data = unnibble(b, 9, n - 1);
                Ok(MidiMessage::ProgramPatchDump { patch: b[7], ver: b[8], data })
            }
        } else {
            Err(CodecError::UnknownOpcode)
        }
    }
}

proof fn lemma_nibbles_round_trip(d: Seq<u8>)
    ensures
        from_nibbles(to_nibbles(d)) == d,
{
    assert forall|i: int| 0 <= i < d.len() implies #[trigger] from_nibbles(to_nibbles(d))[i]
        == d[i] by {
        let b = d[i];
        assert(to_nibbles(d)[2 * i] == b >> 4u8);
        assert(to_nibbles(d)[2 * i + 1] == b & 0x0fu8);
        assert((((b >> 4u8) & 0x0fu8) << 4u8) | ((b & 0x0fu8) & 0x0fu8) == b) by (bit_vector);
    }
    assert(from_nibbles(to_nibbles(d)) =~= d);
}

proof fn lemma_u16_halves(v: u16)
    ensures
        (low_byte(v) as u16 | ((high_byte(v) as u16) << 8u16)) as u16 == v,
{
    assert(((v & 0xffu16) as u8 as u16 | (((v >> 8u16) as u8 as u16) << 8u16)) as u16 == v)
        by (bit_vector);
}

/// Reading the frame of a valid message gives the message back.
pub proof fn law_codec_round_trip(m: MessageModel)
    requires
        m.valid(),
    ensures
        decode(m.encode()) == Ok::<MessageModel, CodecError>(m),
{
    let b = m.encode();
    assert(0xf0u8 & 0xf0u8 == 0xf0u8) by (bit_vector);
    match m {
        MessageModel::ControlChange { channel, control, value } => {
            assert((0xb0u8 | (channel & 0x0fu8)) & 0xf0u8 == 0xb0u8) by (bit_vector);
            assert(channel < 16 ==> (0xb0u8 | (channel & 0x0fu8)) & 0x0fu8 == channel)
                by (bit_vector);
        },
        MessageModel::UniversalDeviceInquiry { channel } => {},
        MessageModel::UniversalDeviceInquiryResponse { channel, family, member, ver } => {
            lemma_u16_halves(family);
            lemma_u16_halves(member);
            assert(b.subrange(12, 16) =~= ver);
        },
        MessageModel::ProgramEditBufferDumpRequest => {},
        MessageModel::ProgramPatchDumpRequest { patch } => {},
        MessageModel::ProgramEditBufferDump { ver, data } => {
            assert(b.subrange(8, b.len() - 1) =~= to_nibbles(data));
            lemma_nibbles_round_trip(data);
        },
        MessageModel::ProgramPatchDump { patch, ver, data } => {
            assert(b.subrange(9, b.len() - 1) =~= to_nibbles(data));
            lemma_nibbles_round_trip(data);
        },
    }
}

} // verus!
