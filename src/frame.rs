use vstd::prelude::*;
use vstd::slice::{slice_subrange, slice_to_vec};
use crate::crc::{crc16_ccitt, crc16_spec, lemma_crc_detects_byte_change};
use crate::error::{ProtocolError, TransportError};
use crate::protocol::{
    append_bytes, be16, command_code, hi_byte, join_be16, lo_byte, split_be16, CommandId,
};

verus! {

pub const PROTO_MAGIC0: u8 = 0xAA;

pub const PROTO_MAGIC1: u8 = 0x55;

pub const PROTO_VERSION: u8 = 0x01;

/// Bytes before the payload: magic pair, version, identifier, length.
pub const HEADER_LEN: usize = 6;

/// The largest payload that the 16-bit length field can describe.
pub const MAX_PAYLOAD: usize = 65535;

/// The checksummed part of a frame: version, identifier, length, payload.
pub open spec fn frame_body(id: u8, payload: Seq<u8>) -> Seq<u8> {
    seq![PROTO_VERSION, id, hi_byte(payload.len() as u16), lo_byte(payload.len() as u16)]
        + payload
}

/// The wire form of a frame.
pub open spec fn encode_spec(id: u8, payload: Seq<u8>) -> Seq<u8> {
    let body = frame_body(id, payload);
    let crc = crc16_spec(body);
    seq![PROTO_MAGIC0, PROTO_MAGIC1] + body + seq![hi_byte(crc), lo_byte(crc)]
}

/// What a six-byte header says: the payload length, or why it is refused.
pub open spec fn header_spec(h: Seq<u8>) -> Result<nat, ProtocolError> {
    if h[0] != PROTO_MAGIC0 || h[1] != PROTO_MAGIC1 {
        Err(ProtocolError::BadMagic)
    } else if h[2] != PROTO_VERSION {
        Err(ProtocolError::UnsupportedVersion)
    } else {
        Ok(be16(h[4], h[5]) as nat)
    }
}

/// Whether the two checksum bytes match the header's checksummed part and the payload.
pub open spec fn checksum_ok(h: Seq<u8>, payload: Seq<u8>, c: Seq<u8>) -> bool {
    be16(c[0], c[1]) == crc16_spec(h.subrange(2, 6) + payload)
}

/// Reading one frame from the front of a byte stream: a header of six bytes,
/// then the payload that it announces, then two checksum bytes. On success,
/// the identifier, the payload and how many bytes the frame took.
pub open spec fn decode_spec(s: Seq<u8>) -> Result<(u8, Seq<u8>, nat), ProtocolError> {
    if s.len() < HEADER_LEN {
        Err(ProtocolError::Transport(TransportError::UnexpectedEof))
    } else {
        match header_spec(s.take(6)) {
            Err(e) => Err(e),
            Ok(len) => {
                let n = len as int;
                if s.len() < 6 + n + 2 {
                Err(ProtocolError::Transport(TransportError::UnexpectedEof))
            } else if !checksum_ok(s.take(6), s.subrange(6, 6 + n), s.subrange(6 + n, 8 + n)) {
                Err(ProtocolError::ChecksumMismatch)
            } else {
                Ok((s[3], s.subrange(6, 6 + n), (6 + n + 2) as nat))
            }
            },
        }
    }
}

/// One message: a command or response identifier and its payload.
#[derive(Debug, Clone)]
pub struct Frame {
    pub cmd: u8,
    pub payload: Vec<u8>,
}

impl Frame {
    pub fn new(cmd: CommandId, payload: Vec<u8>) -> (r: Frame)
        ensures
            r.cmd == command_code(cmd),
            r.payload@ == payload@,
    {
        Frame { cmd: cmd.code(), payload }
    }

    /// The wire form: magic pair, version, identifier, length, payload and
    /// the checksum of everything from the version on.
    pub fn to_bytes(&self) -> (r: Vec<u8>)
        requires
            self.payload@.len() <= MAX_PAYLOAD,
        ensures
            r@ == encode_spec(self.cmd, self.payload@),
    {
        let (len_hi, len_lo) = split_be16(self.payload.len() as u16);
        let mut body: Vec<u8> = Vec::new();
        body.push(PROTO_VERSION);
        body.push(self.cmd);
        body.push(len_hi);
        body.push(len_lo);
        append_bytes(&mut body, self.payload.as_slice());
        assert(body@ =~= frame_body(self.cmd, self.payload@));
        let crc = crc16_ccitt(body.as_slice());
        let (crc_hi, crc_lo) = split_be16(crc);
        let mut buf: Vec<u8> = Vec::new();
        buf.push(PROTO_MAGIC0);
        buf.push(PROTO_MAGIC1);
        append_bytes(&mut buf, body.as_slice());
        buf.push(crc_hi);
        buf.push(crc_lo);
        assert(buf@ =~= encode_spec(self.cmd, self.payload@));
        buf
    }

    /// Checks a received header and returns the payload length it announces.
    pub fn check_header(hdr: &[u8]) -> (r: Result<usize, ProtocolError>)
        requires
            hdr@.len() == HEADER_LEN,
        ensures
            match header_spec(hdr@) {
                Ok(n) => r == Ok::<usize, ProtocolError>(n as usize),
                Err(e) => r == Err::<usize, ProtocolError>(e),
            },
    {
        if hdr[0] != PROTO_MAGIC0 || hdr[1] != PROTO_MAGIC1 {
            return Err(ProtocolError::BadMagic);
        }
        if hdr[2] != PROTO_VERSION {
            return Err(ProtocolError::UnsupportedVersion);
        }
        Ok(join_be16(hdr[4], hdr[5]) as usize)
    }

    /// Assembles a received frame from its three reads: the header, which
    /// `check_header` accepted, the payload it announced, and the checksum.
    pub fn from_parts(hdr: &[u8], payload: Vec<u8>, crc: &[u8]) -> (r: Result<Frame, ProtocolError>)
        requires
            hdr@.len() == HEADER_LEN,
            header_spec(hdr@) == Ok::<nat, ProtocolError>(payload@.len()),
            crc@.len() == 2,
        ensures
            checksum_ok(hdr@, payload@, crc@) ==> r is Ok && r->Ok_0.cmd == hdr@[3]
                && r->Ok_0.payload@ == payload@,
            !checksum_ok(hdr@, payload@, crc@) ==> r == Err::<Frame, ProtocolError>(
                ProtocolError::ChecksumMismatch,
            ),
    {
        let rx_crc = join_be16(crc[0], crc[1]);
        let mut check: Vec<u8> = Vec::new();
        append_bytes(&mut check, slice_subrange(hdr, 2, 6));
        append_bytes(&mut check, payload.as_slice());
        let calc_crc = crc16_ccitt(check.as_slice());
        if rx_crc != calc_crc {
            return Err(ProtocolError::ChecksumMismatch);
        }
        Ok(Frame { cmd: hdr[3], payload })
    }

    /// Reads one frame from the front of `bytes`, with the same three reads
    /// and checks as a stream, and returns it with the number of bytes it took.
    pub fn from_bytes(bytes: &[u8]) -> (r: Result<(Frame, usize), ProtocolError>)
        ensures
            match decode_spec(bytes@) {
                Ok((id, p, n)) => r is Ok && r->Ok_0.0.cmd == id && r->Ok_0.0.payload@ == p
                    && r->Ok_0.1 == n,
                Err(e) => r == Err::<(Frame, usize), ProtocolError>(e),
            },
    {
        if bytes.len() < HEADER_LEN {
            return Err(ProtocolError::Transport(TransportError::UnexpectedEof));
        }
        let hdr = slice_subrange(bytes, 0, HEADER_LEN);
        assert(hdr@ =~= bytes@.take(6));
        let len = match Frame::check_header(hdr) {
            Ok(n) => n,
            Err(e) => {
                return Err(e);
            },
        };
        if bytes.len() - HEADER_LEN < len || bytes.len() - HEADER_LEN - len < 2 {
            return Err(ProtocolError::Transport(TransportError::UnexpectedEof));
        }
        let payload = slice_to_vec(slice_subrange(bytes, HEADER_LEN, HEADER_LEN + len));
        let crc = slice_subrange(bytes, HEADER_LEN + len, HEADER_LEN + len + 2);
        match Frame::from_parts(hdr, payload, crc) {
            Ok(f) => Ok((f, HEADER_LEN + len + 2)),
            Err(e) => Err(e),
        }
    }
}

proof fn lemma_be16_split(x: u16)
    ensures
        be16(hi_byte(x), lo_byte(x)) == x,
{
    assert(x == (x / 256) * 256 + x % 256);
}

/// Decoding the wire form of any frame whose payload fits the length field
/// gives back its identifier and payload, and consumes exactly that frame.
pub proof fn lemma_round_trip(id: u8, payload: Seq<u8>)
    requires
        payload.len() <= MAX_PAYLOAD,
    ensures
        decode_spec(encode_spec(id, payload)) == Ok::<(u8, Seq<u8>, nat), ProtocolError>(
            (id, payload, payload.len() + 8),
        ),
{
    let n = payload.len() as int;
    let body = frame_body(id, payload);
    let crc = crc16_spec(body);
    let s = encode_spec(id, payload);
    lemma_be16_split(n as u16);
    lemma_be16_split(crc);
    assert(s.take(6) =~= seq![PROTO_MAGIC0, PROTO_MAGIC1, PROTO_VERSION, id,
        hi_byte(n as u16), lo_byte(n as u16)]);
    assert(header_spec(s.take(6)) == Ok::<nat, ProtocolError>(payload.len()));
    assert(s.subrange(6, 6 + n) =~= payload);
    assert(s.take(6).subrange(2, 6) + payload =~= body);
    assert(s.subrange(6 + n, 8 + n) =~= seq![hi_byte(crc), lo_byte(crc)]);
}

/// A stream of at least a header's length that does not start with the magic
/// pair is refused as `BadMagic`; one that does, but carries another version
/// byte, is refused as `UnsupportedVersion`.
pub proof fn lemma_magic_version_gating(s: Seq<u8>)
    requires
        s.len() >= HEADER_LEN,
    ensures
        s[0] != PROTO_MAGIC0 || s[1] != PROTO_MAGIC1 ==> decode_spec(s) == Err::<
            (u8, Seq<u8>, nat),
            ProtocolError,
        >(ProtocolError::BadMagic),
        s[0] == PROTO_MAGIC0 && s[1] == PROTO_MAGIC1 && s[2] != PROTO_VERSION ==> decode_spec(s)
            == Err::<(u8, Seq<u8>, nat), ProtocolError>(ProtocolError::UnsupportedVersion),
{
    assert(s.take(6)[0] == s[0] && s.take(6)[1] == s[1] && s.take(6)[2] == s[2]);
}

/// Flipping bits within one byte of an encoded frame, at the identifier, in
/// the payload or in the checksum, makes decoding fail with
/// `ChecksumMismatch`: corrupted data is never accepted. (A flipped version
/// byte is refused as `UnsupportedVersion` instead, and a flipped length byte
/// changes where the frame ends.)
pub proof fn lemma_corruption_detected(id: u8, payload: Seq<u8>, p: int, mask: u8)
    requires
        payload.len() <= MAX_PAYLOAD,
        mask != 0,
        p == 3 || 6 <= p < payload.len() + 8,
    ensures
        decode_spec(encode_spec(id, payload).update(p, encode_spec(id, payload)[p] ^ mask))
            == Err::<(u8, Seq<u8>, nat), ProtocolError>(ProtocolError::ChecksumMismatch),
{
    let n = payload.len() as int;
    let body = frame_body(id, payload);
    let crc = crc16_spec(body);
    let s = encode_spec(id, payload);
    let t = s.update(p, s[p] ^ mask);
    lemma_be16_split(n as u16);
    lemma_be16_split(crc);
    if p < 6 {
        assert(t.take(6) =~= s.take(6).update(p, s[p] ^ mask));
    } else {
        assert(t.take(6) =~= s.take(6));
    }
    assert(t.take(6)[4] == hi_byte(n as u16) && t.take(6)[5] == lo_byte(n as u16));
    assert(header_spec(t.take(6)) == Ok::<nat, ProtocolError>(payload.len()));
    let tbody = t.take(6).subrange(2, 6) + t.subrange(6, 6 + n);
    if p < 6 + n {
        assert(tbody =~= body.update(p - 2, body[p - 2] ^ mask));
        lemma_crc_detects_byte_change(0xFFFF, body, p - 2, mask);
        assert(t.subrange(6 + n, 8 + n) =~= seq![hi_byte(crc), lo_byte(crc)]);
    } else {
        assert(tbody =~= body);
        let c = t.subrange(6 + n, 8 + n);
        if p == 6 + n {
            assert(c =~= seq![hi_byte(crc) ^ mask, lo_byte(crc)]);
            assert(hi_byte(crc) ^ mask != hi_byte(crc)) by (bit_vector)
                requires
                    mask != 0,
            ;
        } else {
            assert(c =~= seq![hi_byte(crc), lo_byte(crc) ^ mask]);
            assert(lo_byte(crc) ^ mask != lo_byte(crc)) by (bit_vector)
                requires
                    mask != 0,
            ;
        }
    }
}

} // verus!
