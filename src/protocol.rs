use vstd::prelude::*;
use crate::error::ProtocolError;

verus! {

/// Commands, host to device.
#[derive(Debug, Clone, Copy, PartialEq, Eq, Structural)]
pub enum CommandId {
    Hello,
    Erase,
    Write,
    Verify,
    SetMeta,
    Start,
    LiveFrame,
}

/// The wire byte of each command.
pub open spec fn command_code(c: CommandId) -> u8 {
    match c {
        CommandId::Hello => 0x01,
        CommandId::Erase => 0x10,
        CommandId::Write => 0x11,
        CommandId::Verify => 0x12,
        CommandId::SetMeta => 0x13,
        CommandId::Start => 0x14,
        CommandId::LiveFrame => 0x21,
    }
}

impl CommandId {
    /// The byte that identifies this command on the wire.
    pub fn code(self) -> (r: u8)
        ensures
            r == command_code(self),
    {
        match self {
            CommandId::Hello => 0x01,
            CommandId::Erase => 0x10,
            CommandId::Write => 0x11,
            CommandId::Verify => 0x12,
            CommandId::SetMeta => 0x13,
            CommandId::Start => 0x14,
            CommandId::LiveFrame => 0x21,
        }
    }
}

/// Responses, device to host.
#[derive(Debug, Clone, Copy, PartialEq, Eq, Structural)]
pub enum ResponseId {
    /// The step succeeded (wire name "Ok").
    Ack,
    /// The device refused the step (wire name "Err").
    Nak,
    Hello,
    Verify,
}

/// The wire byte of each response.
pub open spec fn response_code(r: ResponseId) -> u8 {
    match r {
        ResponseId::Ack => 0x80,
        ResponseId::Nak => 0x81,
        ResponseId::Hello => 0x82,
        ResponseId::Verify => 0x83,
    }
}

/// The response that a byte names, if any.
pub open spec fn response_of(b: u8) -> Option<ResponseId> {
    if b == 0x80 {
        Some(ResponseId::Ack)
    } else if b == 0x81 {
        Some(ResponseId::Nak)
    } else if b == 0x82 {
        Some(ResponseId::Hello)
    } else if b == 0x83 {
        Some(ResponseId::Verify)
    } else {
        None
    }
}

impl ResponseId {
    /// The byte that identifies this response on the wire.
    pub fn code(self) -> (r: u8)
        ensures
            r == response_code(self),
            response_of(r) == Some(self),
    {
        match self {
            ResponseId::Ack => 0x80,
            ResponseId::Nak => 0x81,
            ResponseId::Hello => 0x82,
            ResponseId::Verify => 0x83,
        }
    }

    /// Reads a response identifier; an undefined byte is an error, never a default.
    pub fn try_from(value: u8) -> (r: Result<ResponseId, ProtocolError>)
        ensures
            match response_of(value) {
                Some(id) => r == Ok::<ResponseId, ProtocolError>(id) && response_code(id) == value,
                None => r == Err::<ResponseId, ProtocolError>(ProtocolError::UnknownResponse(value)),
            },
    {
        match value {
            0x80 => Ok(ResponseId::Ack),
            0x81 => Ok(ResponseId::Nak),
            0x82 => Ok(ResponseId::Hello),
            0x83 => Ok(ResponseId::Verify),
            _ => Err(ProtocolError::UnknownResponse(value)),
        }
    }
}

/// The big-endian value of two bytes.
pub open spec fn be16(hi: u8, lo: u8) -> u16 {
    (hi as int * 256 + lo as int) as u16
}

/// The high byte of a 16-bit value.
pub open spec fn hi_byte(x: u16) -> u8 {
    (x / 256) as u8
}

/// The low byte of a 16-bit value.
pub open spec fn lo_byte(x: u16) -> u8 {
    (x % 256) as u8
}

/// The four big-endian bytes of a 32-bit value.
pub open spec fn be32_bytes(x: u32) -> Seq<u8> {
    seq![
        (x / 0x100_0000) as u8,
        (x / 0x1_0000 % 256) as u8,
        (x / 256 % 256) as u8,
        (x % 256) as u8,
    ]
}

/// Joins two bytes, high first.
pub fn join_be16(hi: u8, lo: u8) -> (r: u16)
    ensures
        r == be16(hi, lo),
{
    let r = ((hi as u16) << 8u16) | (lo as u16);
    assert(((hi as u16) << 8u16) | (lo as u16) == (hi as u16) * 256 + (lo as u16)) by (bit_vector);
    r
}

/// Splits a 16-bit value into its two bytes, high first.
pub fn split_be16(x: u16) -> (r: (u8, u8))
    ensures
        r.0 == hi_byte(x),
        r.1 == lo_byte(x),
{
    assert((x >> 8u16) as u8 == (x / 256) as u8) by (bit_vector);
    assert((x & 0xFFu16) as u8 == (x % 256) as u8) by (bit_vector);
    ((x >> 8u16) as u8, (x & 0xFFu16) as u8)
}

/// What the device reports about itself in answer to Hello.
#[derive(Debug, Clone)]
pub struct HelloResponse {
    /// Which physical unit answered.
    pub target: String,
    /// Its firmware version.
    pub fw: String,
    /// The protocol version it speaks.
    pub proto: u8,
}

/// The device's checksum over what it holds, in answer to Verify.
#[derive(Debug, Clone, Copy, PartialEq, Eq, Structural)]
pub struct VerifyResponse {
    pub crc: u16,
}

impl VerifyResponse {
    /// Reads a Verify payload: exactly two bytes, a big-endian checksum.
    pub fn from_payload(payload: &[u8]) -> (r: Result<VerifyResponse, ProtocolError>)
        ensures
            payload@.len() == 2 ==> r == Ok::<VerifyResponse, ProtocolError>(
                VerifyResponse { crc: be16(payload@[0], payload@[1]) },
            ),
            payload@.len() != 2 ==> r == Err::<VerifyResponse, ProtocolError>(
                ProtocolError::MalformedPayload,
            ),
    {
        if payload.len() != 2 {
            return Err(ProtocolError::MalformedPayload);
        }
        let crc = join_be16(payload[0], payload[1]);
        Ok(VerifyResponse { crc })
    }
}

/// Appends `src` to `dst`.
pub fn append_bytes(dst: &mut Vec<u8>, src: &[u8])
    ensures
        final(dst)@ == old(dst)@ + src@,
{
    let mut i: usize = 0;
    while i < src.len()
        invariant
            i <= src.len(),
            dst@ == old(dst)@ + src@.subrange(0, i as int),
        decreases src.len() - i,
    {
        dst.push(src[i]);
        i += 1;
        assert(dst@ =~= old(dst)@ + src@.subrange(0, i as int));
    }
    assert(src@.subrange(0, src.len() as int) =~= src@);
}

/// The payload of a Write command: the offset, big-endian, then the data.
pub fn write_payload(offset: u32, data: &[u8]) -> (r: Vec<u8>)
    ensures
        r@ == be32_bytes(offset) + data@,
{
    let mut r: Vec<u8> = Vec::new();
    assert(((offset >> 24u32) & 0xFFu32) as u8 == (offset / 0x100_0000) as u8) by (bit_vector);
    assert(((offset >> 16u32) & 0xFFu32) as u8 == (offset / 0x1_0000 % 256) as u8) by (bit_vector);
    assert(((offset >> 8u32) & 0xFFu32) as u8 == (offset / 256 % 256) as u8) by (bit_vector);
    assert((offset & 0xFFu32) as u8 == (offset % 256) as u8) by (bit_vector);
    r.push(((offset >> 24u32) & 0xFFu32) as u8);
    r.push(((offset >> 16u32) & 0xFFu32) as u8);
    r.push(((offset >> 8u32) & 0xFFu32) as u8);
    r.push((offset & 0xFFu32) as u8);
    assert(r@ =~= be32_bytes(offset));
    append_bytes(&mut r, data);
    r
}

} // verus!
