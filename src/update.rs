use vstd::prelude::*;
use vstd::slice::{slice_subrange, slice_to_vec};
use crate::crc::{crc16_ccitt, crc16_spec};
use crate::error::ProtocolError;
use crate::frame::{Frame, MAX_PAYLOAD};
use crate::protocol::{
    be16, be32_bytes, command_code, response_of, write_payload, CommandId, ResponseId,
    VerifyResponse,
};

verus! {

/// Bytes of image per Write command: well inside the device's buffer and
/// the frame's 16-bit payload length, with the 4 offset bytes added.
pub const CHUNK_SIZE: usize = 256;

/// A slice of the image sent in one Write exchange, with its absolute position.
#[derive(Debug, Clone)]
pub struct Chunk {
    pub offset: usize,
    pub data: Vec<u8>,
}

/// How many chunks of size `c` cover `len` bytes: `len / c`, rounded up.
pub open spec fn chunk_count(len: int, c: int) -> int {
    (len + c - 1) / c
}

/// Where chunk `i` ends: a full chunk further on, or the end of the image.
pub open spec fn chunk_end(len: int, c: int, i: int) -> int {
    if (i + 1) * c < len {
        (i + 1) * c
    } else {
        len
    }
}

/// The bytes of chunk `i`.
pub open spec fn chunk_data(image: Seq<u8>, c: int, i: int) -> Seq<u8> {
    image.subrange(i * c, chunk_end(image.len() as int, c, i))
}

/// The chunks' data, one after the other.
pub open spec fn concat_data(cs: Seq<Chunk>) -> Seq<u8>
    decreases cs.len(),
{
    if cs.len() == 0 {
        Seq::empty()
    } else {
        concat_data(cs.drop_last()) + cs.last().data@
    }
}

/// `cs` is `image` cut into chunks of size `c`, in order.
pub open spec fn chunked(image: Seq<u8>, c: int, cs: Seq<Chunk>) -> bool {
    &&& cs.len() == chunk_count(image.len() as int, c)
    &&& forall|i: int|
        0 <= i < cs.len() ==> (#[trigger] cs[i]).offset == i * c && cs[i].data@ == chunk_data(
            image,
            c,
            i,
        )
}

proof fn lemma_ceil_div(k: int, c: int, len: int)
    requires
        c > 0,
        len >= 0,
        k >= 0,
        k * c >= len,
        k == 0 || (k - 1) * c < len,
    ensures
        k == chunk_count(len, c),
{
    if k == 0 {
        assert(len == 0);
        assert((c - 1) / c == 0) by (nonlinear_arith)
            requires
                c > 0,
        ;
    } else {
        assert(k * c <= len + c - 1 < (k + 1) * c) by (nonlinear_arith)
            requires
                k * c >= len,
                (k - 1) * c < len,
        ;
        vstd::arithmetic::div_mod::lemma_fundamental_div_mod_converse(
            len + c - 1,
            c,
            k,
            len + c - 1 - k * c,
        );
    }
}

/// Cuts `image` into chunks of `chunk_size` bytes; the last one holds the
/// remainder. Chunk `i` starts at `i * chunk_size`, and the chunks' data
/// put back together is the image.
pub fn chunk_image(image: &[u8], chunk_size: usize) -> (r: Vec<Chunk>)
    requires
        chunk_size > 0,
    ensures
        chunked(image@, chunk_size as int, r@),
        concat_data(r@) == image@,
{
    let ghost c = chunk_size as int;
    let ghost len = image@.len() as int;
    let mut r: Vec<Chunk> = Vec::new();
    let mut pos: usize = 0;
    assert(0 * c == 0);
    while pos < image.len()
        invariant
            c == chunk_size as int,
            len == image@.len(),
            c > 0,
            pos <= len,
            pos < len ==> pos == r.len() * c,
            r.len() * c >= pos,
            r.len() == 0 || (r.len() - 1) * c < pos,
            forall|i: int|
                0 <= i < r.len() ==> (#[trigger] r@[i]).offset == i * c && r@[i].data@
                    == chunk_data(image@, c, i),
            concat_data(r@) == image@.take(pos as int),
        decreases image.len() - pos,
    {
        let ghost k = r.len() as int;
        let end: usize = if image.len() - pos > chunk_size {
            pos + chunk_size
        } else {
            image.len()
        };
        assert((k + 1) * c == k * c + c) by (nonlinear_arith);
        let data = slice_to_vec(slice_subrange(image, pos, end));
        let ghost old_r = r@;
        r.push(Chunk { offset: pos, data });
        proof {
            assert(r@.drop_last() =~= old_r);
            assert(image@.take(pos as int) + image@.subrange(pos as int, end as int)
                =~= image@.take(end as int));
            assert(r@[k].data@ == chunk_data(image@, c, k));
        }
        pos = end;
    }
    proof {
        lemma_ceil_div(r.len() as int, c, len);
        assert(image@.take(len) =~= image@);
    }
    r
}

/// Where an update stands.
#[derive(Debug, Clone, Copy, PartialEq, Eq, Structural)]
pub enum Phase {
    /// Created, nothing sent yet.
    Idle,
    /// Hello sent; a Hello response is expected.
    Handshaking,
    /// Erase sent; Ok is expected.
    Erasing,
    /// A Write of the next chunk sent; Ok is expected.
    Writing,
    /// Verify sent; a Verify response with the image's checksum is expected.
    Verifying,
    /// Start sent; Ok is expected.
    Starting,
    /// The device was told to boot the verified image.
    Completed,
    /// The update stopped at the first error; a new one must start over.
    Failed(ProtocolError),
}

/// Whether a request is outstanding in this phase.
pub open spec fn awaiting(p: Phase) -> bool {
    match p {
        Phase::Handshaking | Phase::Erasing | Phase::Writing | Phase::Verifying
        | Phase::Starting => true,
        _ => false,
    }
}

/// Once `next` chunks of `count` are written: the next Write, or Verify.
pub open spec fn after_writes(next: int, count: int) -> Phase {
    if next < count {
        Phase::Writing
    } else {
        Phase::Verifying
    }
}

/// The device's checksum is accepted when it is the checksum of the whole
/// image and, where the caller gave one, also the expected checksum.
pub open spec fn verify_passes(image: Seq<u8>, expected: Option<u16>, crc: u16) -> bool {
    crc == crc16_spec(image) && (expected is None || expected == Some(crc))
}

/// A received frame, or the failure to receive one, as identifier and payload.
pub open spec fn reply_of(resp: Result<Frame, ProtocolError>) -> Result<(u8, Seq<u8>), ProtocolError> {
    match resp {
        Ok(f) => Ok((f.cmd, f.payload@)),
        Err(e) => Err(e),
    }
}

/// The phase that follows `p` on a reply, `next` chunks of `count` being written.
pub open spec fn next_phase(
    p: Phase,
    next: int,
    count: int,
    image: Seq<u8>,
    expected: Option<u16>,
    reply: Result<(u8, Seq<u8>), ProtocolError>,
) -> Phase {
    if !awaiting(p) {
        p
    } else {
        match reply {
            Err(e) => Phase::Failed(e),
            Ok((id, payload)) => match response_of(id) {
                None => Phase::Failed(ProtocolError::UnknownResponse(id)),
                Some(ResponseId::Nak) => Phase::Failed(ProtocolError::DeviceRejected),
                Some(r) => match p {
                    Phase::Handshaking => if r == ResponseId::Hello {
                        Phase::Erasing
                    } else {
                        Phase::Failed(ProtocolError::UnexpectedResponse)
                    },
                    Phase::Erasing => if r == ResponseId::Ack {
                        after_writes(0, count)
                    } else {
                        Phase::Failed(ProtocolError::UnexpectedResponse)
                    },
                    Phase::Writing => if r == ResponseId::Ack {
                        after_writes(next + 1, count)
                    } else {
                        Phase::Failed(ProtocolError::UnexpectedResponse)
                    },
                    Phase::Verifying => if r != ResponseId::Verify {
                        Phase::Failed(ProtocolError::UnexpectedResponse)
                    } else if payload.len() != 2 {
                        Phase::Failed(ProtocolError::MalformedPayload)
                    } else if verify_passes(image, expected, be16(payload[0], payload[1])) {
                        Phase::Starting
                    } else {
                        Phase::Failed(ProtocolError::VerificationFailed)
                    },
                    _ => if r == ResponseId::Ack {
                        Phase::Completed
                    } else {
                        Phase::Failed(ProtocolError::UnexpectedResponse)
                    },
                },
            },
        }
    }
}

/// The command sent on entering each phase, with its payload.
pub open spec fn request_of(p: Phase, image: Seq<u8>, next: int) -> Option<(u8, Seq<u8>)> {
    match p {
        Phase::Handshaking => Some((command_code(CommandId::Hello), Seq::empty())),
        Phase::Erasing => Some((command_code(CommandId::Erase), Seq::empty())),
        Phase::Writing => Some(
            (
                command_code(CommandId::Write),
                be32_bytes((next * CHUNK_SIZE) as u32) + chunk_data(image, CHUNK_SIZE as int, next),
            ),
        ),
        Phase::Verifying => Some((command_code(CommandId::Verify), Seq::empty())),
        Phase::Starting => Some((command_code(CommandId::Start), Seq::empty())),
        _ => None,
    }
}

/// One firmware update attempt: the image, its chunks, how many chunks the
/// device has accepted, the checksum the caller expects, and the phase.
pub struct UpdateSession {
    pub image: Vec<u8>,
    pub chunks: Vec<Chunk>,
    pub next_chunk: usize,
    pub expected: Option<u16>,
    pub phase: Phase,
}

impl UpdateSession {
    pub open spec fn wf(&self) -> bool {
        &&& self.image@.len() <= u32::MAX
        &&& chunked(self.image@, CHUNK_SIZE as int, self.chunks@)
        &&& self.next_chunk <= self.chunks@.len()
        &&& self.phase == Phase::Writing ==> self.next_chunk < self.chunks@.len()
        &&& (self.phase == Phase::Idle || self.phase == Phase::Handshaking || self.phase
            == Phase::Erasing) ==> self.next_chunk == 0
    }

    /// A session for `image`, in `Idle`. Offsets go on the wire in 32 bits,
    /// so the image is at most `u32::MAX` bytes long.
    pub fn new(image: Vec<u8>, expected: Option<u16>) -> (r: UpdateSession)
        requires
            image@.len() <= u32::MAX,
        ensures
            r.wf(),
            r.image@ == image@,
            r.expected == expected,
            r.next_chunk == 0,
            r.phase == Phase::Idle,
    {
        let chunks = chunk_image(image.as_slice(), CHUNK_SIZE);
        UpdateSession { image, chunks, next_chunk: 0, expected, phase: Phase::Idle }
    }

    /// Starts the update: `Idle` moves to `Handshaking`; any other phase stays.
    pub fn begin(&mut self)
        requires
            old(self).wf(),
        ensures
            final(self).wf(),
            final(self).image == old(self).image,
            final(self).chunks == old(self).chunks,
            final(self).expected == old(self).expected,
            final(self).next_chunk == old(self).next_chunk,
            final(self).phase == (if old(self).phase == Phase::Idle {
                Phase::Handshaking
            } else {
                old(self).phase
            }),
    {
        if self.phase == Phase::Idle {
            self.phase = Phase::Handshaking;
        }
    }

    /// The frame to send in the current phase, or `None` where nothing is to
    /// be sent (before `begin`, and once finished).
    pub fn next_request(&self) -> (r: Option<Frame>)
        requires
            self.wf(),
        ensures
            match request_of(self.phase, self.image@, self.next_chunk as int) {
                Some((id, p)) => r is Some && r->Some_0.cmd == id && r->Some_0.payload@ == p
                    && p.len() <= MAX_PAYLOAD,
                None => r is None,
            },
    {
        match self.phase {
            Phase::Handshaking => Some(Frame::new(CommandId::Hello, Vec::new())),
            Phase::Erasing => Some(Frame::new(CommandId::Erase, Vec::new())),
            Phase::Writing => {
                let chunk = &self.chunks[self.next_chunk];
                let ghost i = self.next_chunk as int;
                assert(chunk.offset == i * CHUNK_SIZE);
                assert(i * CHUNK_SIZE < self.image@.len()) by (nonlinear_arith)
                    requires
                        i < chunk_count(self.image@.len() as int, CHUNK_SIZE as int),
                        0 <= i,
                ;
                assert(chunk.data@.len() <= CHUNK_SIZE) by (nonlinear_arith)
                    requires
                        chunk.data@ == chunk_data(self.image@, CHUNK_SIZE as int, i),
                        i * CHUNK_SIZE < self.image@.len(),
                        0 <= i,
                ;
                let payload = write_payload(chunk.offset as u32, chunk.data.as_slice());
                Some(Frame::new(CommandId::Write, payload))
            },
            Phase::Verifying => Some(Frame::new(CommandId::Verify, Vec::new())),
            Phase::Starting => Some(Frame::new(CommandId::Start, Vec::new())),
            _ => None,
        }
    }

    /// Takes the outcome of the exchange for the current phase: the decoded
    /// reply, or the error that stopped it. A reply moves the update on; any
    /// error or reply of the wrong kind ends it in `Failed`. Without an
    /// outstanding request nothing changes.
    pub fn on_response(&mut self, resp: Result<Frame, ProtocolError>)
        requires
            old(self).wf(),
        ensures
            final(self).wf(),
            final(self).image == old(self).image,
            final(self).chunks == old(self).chunks,
            final(self).expected == old(self).expected,
            final(self).phase == next_phase(
                old(self).phase,
                old(self).next_chunk as int,
                old(self).chunks@.len() as int,
                old(self).image@,
                old(self).expected,
                reply_of(resp),
            ),
            final(self).next_chunk == (if old(self).phase == Phase::Writing && (final(self).phase
                == Phase::Writing || final(self).phase == Phase::Verifying) {
                (old(self).next_chunk + 1) as usize
            } else {
                old(self).next_chunk
            }),
    {
        let phase = self.phase;
        match phase {
            Phase::Idle | Phase::Completed | Phase::Failed(_) => {
                return ;
            },
            _ => {},
        }
        let frame = match resp {
            Ok(f) => f,
            Err(e) => {
                self.phase = Phase::Failed(e);
                return ;
            },
        };
        let id = match ResponseId::try_from(frame.cmd) {
            Ok(id) => id,
            Err(e) => {
                self.phase = Phase::Failed(e);
                return ;
            },
        };
        if id == ResponseId::Nak {
            self.phase = Phase::Failed(ProtocolError::DeviceRejected);
            return ;
        }
        self.phase = match phase {
            Phase::Handshaking => if id == ResponseId::Hello {
                Phase::Erasing
            } else {
                Phase::Failed(ProtocolError::UnexpectedResponse)
            },
            Phase::Erasing => if id != ResponseId::Ack {
                Phase::Failed(ProtocolError::UnexpectedResponse)
            } else if 0 < self.chunks.len() {
                Phase::Writing
            } else {
                Phase::Verifying
            },
            Phase::Writing => if id != ResponseId::Ack {
                Phase::Failed(ProtocolError::UnexpectedResponse)
            } else {
                self.next_chunk = self.next_chunk + 1;
                if self.next_chunk < self.chunks.len() {
                    Phase::Writing
                } else {
                    Phase::Verifying
                }
            },
            Phase::Verifying => if id != ResponseId::Verify {
                Phase::Failed(ProtocolError::UnexpectedResponse)
            } else {
                match VerifyResponse::from_payload(frame.payload.as_slice()) {
                    Err(e) => Phase::Failed(e),
                    Ok(v) => {
                        let local = crc16_ccitt(self.image.as_slice());
                        let expected_ok = match self.expected {
                            Some(x) => x == v.crc,
                            None => true,
                        };
                        if v.crc == local && expected_ok {
                            Phase::Starting
                        } else {
                            Phase::Failed(ProtocolError::VerificationFailed)
                        }
                    },
                }
            },
            _ => if id == ResponseId::Ack {
                Phase::Completed
            } else {
                Phase::Failed(ProtocolError::UnexpectedResponse)
            },
        };
    }

    /// Whether the update has reached `Completed` or `Failed`.
    pub fn is_finished(&self) -> (r: bool)
        ensures
            r == (self.phase == Phase::Completed || self.phase is Failed),
    {
        match self.phase {
            Phase::Completed | Phase::Failed(_) => true,
            _ => false,
        }
    }

    /// The outcome once finished: `Ok` when completed, the failure otherwise.
    pub fn outcome(&self) -> (r: Option<Result<(), ProtocolError>>)
        ensures
            match self.phase {
                Phase::Completed => r == Some(Ok::<(), ProtocolError>(())),
                Phase::Failed(e) => r == Some(Err::<(), ProtocolError>(e)),
                _ => r is None,
            },
    {
        match self.phase {
            Phase::Completed => Some(Ok(())),
            Phase::Failed(e) => Some(Err(e)),
            _ => None,
        }
    }
}

/// A finished update stays as it is, whatever arrives afterwards, so a
/// failed one sends nothing more.
pub proof fn lemma_finished_is_terminal(
    p: Phase,
    next: int,
    count: int,
    image: Seq<u8>,
    expected: Option<u16>,
    reply: Result<(u8, Seq<u8>), ProtocolError>,
)
    requires
        p == Phase::Completed || p is Failed,
    ensures
        next_phase(p, next, count, image, expected, reply) == p,
        request_of(p, image, next) is None,
{
}

/// An error response to any outstanding request ends the update with
/// `DeviceRejected`, after which no request is sent.
pub proof fn lemma_rejection_is_fatal(
    p: Phase,
    next: int,
    count: int,
    image: Seq<u8>,
    expected: Option<u16>,
    payload: Seq<u8>,
)
    requires
        awaiting(p),
    ensures
        next_phase(p, next, count, image, expected, Ok((0x81u8, payload)))
            == Phase::Failed(ProtocolError::DeviceRejected),
        request_of(Phase::Failed(ProtocolError::DeviceRejected), image, next) is None,
{
}

/// The update reaches `Starting`, the only phase that sends Start, solely
/// from `Verifying`, on a Verify response whose checksum matches the whole
/// image (and the expected checksum, where one was given).
pub proof fn lemma_start_needs_verification(
    p: Phase,
    next: int,
    count: int,
    image: Seq<u8>,
    expected: Option<u16>,
    reply: Result<(u8, Seq<u8>), ProtocolError>,
)
    ensures
        next_phase(p, next, count, image, expected, reply) == Phase::Starting ==> {
            &&& p == Phase::Verifying
            &&& reply is Ok
            &&& response_of(reply->Ok_0.0) == Some(ResponseId::Verify)
            &&& reply->Ok_0.1.len() == 2
            &&& verify_passes(image, expected, be16(reply->Ok_0.1[0], reply->Ok_0.1[1]))
        },
        request_of(Phase::Starting, image, next) == Some(
            (command_code(CommandId::Start), Seq::<u8>::empty()),
        ),
{
}

} // verus!
