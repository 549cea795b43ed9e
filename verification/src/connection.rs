//! The transaction engine: owns a channel and a read buffer, performs the
//! request/response exchange (clear, write, flush, chunked read under a
//! deadline, decode), and enforces the maximum frame size.

use vstd::prelude::*;

use crate::channel::{Channel, ChunkRead};
use crate::codec::{decode, Command, Frame};
use crate::error::Error;

verus! {

/// The largest response frame the engine will accumulate, in bytes.
pub const MAX_FRAME_SIZE: usize = 4096;

/// A backstop on read-loop iterations for one transaction, so that a
/// channel whose deadline never fires cannot spin the engine forever.
pub const MAX_POLLS: usize = 1_000_000;

/// Whether the byte sequence ends in the wire terminator `\r\n`.
pub open spec fn ends_with_term(s: Seq<u8>) -> bool {
    s.len() >= 2 && s[s.len() - 2] == 13 && s[s.len() - 1] == 10
}

/// Declares `bytes::BytesMut`, the growable byte buffer behind the read
/// accumulator, so that it can stand in fields and signatures; the
/// verifier sees nothing inside a value of it.
#[verifier::external_type_specification]
#[verifier::external_body]
pub struct ExBytesMut(bytes::BytesMut);

/// The bytes a `BytesMut` buffer currently holds.
pub uninterp spec fn bytes_mut_view(b: bytes::BytesMut) -> Seq<u8>;

/// Relies on `bytes::BytesMut::new`: a fresh buffer holds no bytes.
#[verifier::external_body]
fn bytes_mut_new() -> (r: bytes::BytesMut)
    ensures
        bytes_mut_view(r) == Seq::<u8>::empty(),
{
    bytes::BytesMut::new()
}

/// Relies on `bytes::BytesMut::clear`: it sets the length to zero.
#[verifier::external_body]
fn bytes_mut_clear(b: &mut bytes::BytesMut)
    ensures
        bytes_mut_view(*final(b)) == Seq::<u8>::empty(),
{
    b.clear()
}

/// Relies on `bytes::BytesMut::extend_from_slice`: it appends the slice.
/// The length bound keeps the call inside the allocator's limit.
#[verifier::external_body]
fn bytes_mut_extend(b: &mut bytes::BytesMut, s: &[u8])
    requires
        bytes_mut_view(*old(b)).len() + s@.len() <= 0x7fff_ffff_ffff_ffff,
    ensures
        bytes_mut_view(*final(b)) == bytes_mut_view(*old(b)) + s@,
{
    b.extend_from_slice(s)
}

/// Relies on `bytes::BytesMut::len`.
#[verifier::external_body]
fn bytes_mut_len(b: &bytes::BytesMut) -> (r: usize)
    ensures
        r == bytes_mut_view(*b).len(),
{
    b.len()
}

/// Relies on `BytesMut`'s deref to `[u8]`: the slice of the bytes held.
#[verifier::external_body]
fn bytes_mut_slice(b: &bytes::BytesMut) -> (r: &[u8])
    ensures
        r@ == bytes_mut_view(*b),
{
    &b[..]
}

/// What one appended chunk did to the frame being accumulated.
pub enum PushOutcome {
    /// The buffer now ends in the terminator: the frame is complete.
    Complete,
    /// No terminator yet; keep reading.
    NeedMore,
    /// The accumulated length passed the frame limit; the buffer was
    /// discarded. `idx` is the offending total, `max_len` the limit.
    Overflow { max_len: usize, idx: usize },
}

/// The response bytes of one transaction, grown chunk by chunk until the
/// terminator appears or the frame limit is passed.
pub struct FrameAccumulator {
    buf: bytes::BytesMut,
}

impl View for FrameAccumulator {
    type V = Seq<u8>;

    closed spec fn view(&self) -> Seq<u8> {
        bytes_mut_view(self.buf)
    }
}

impl FrameAccumulator {
    /// An empty accumulator.
    pub fn new() -> (r: Self)
        ensures
            r@ == Seq::<u8>::empty(),
    {
        FrameAccumulator { buf: bytes_mut_new() }
    }

    /// Discards everything accumulated so far.
    pub fn clear(&mut self)
        ensures
            final(self)@ == Seq::<u8>::empty(),
    {
        bytes_mut_clear(&mut self.buf);
    }

    /// How many bytes are accumulated.
    pub fn len(&self) -> (r: usize)
        ensures
            r == self@.len(),
    {
        bytes_mut_len(&self.buf)
    }

    /// The accumulated bytes.
    pub fn bytes(&self) -> (r: &[u8])
        ensures
            r@ == self@,
    {
        bytes_mut_slice(&self.buf)
    }

    /// Whether the accumulated bytes end in the terminator.
    pub fn tail_is_terminator(&self) -> (r: bool)
        ensures
            r == ends_with_term(self@),
    {
        let s = bytes_mut_slice(&self.buf);
        let n = s.len();
        n >= 2 && s[n - 2] == 13 && s[n - 1] == 10
    }

    /// Appends one chunk. If the total passes the frame limit the buffer
    /// is discarded and the overflow is reported with the offending
    /// total; otherwise the outcome says whether the terminator has
    /// arrived.
    pub fn push_chunk(&mut self, chunk: &[u8]) -> (r: PushOutcome)
        requires
            old(self)@.len() <= MAX_FRAME_SIZE,
        ensures
            old(self)@.len() + chunk@.len() > MAX_FRAME_SIZE ==> {
                &&& (r matches PushOutcome::Overflow { max_len, idx } && max_len
                    == MAX_FRAME_SIZE && idx == if old(self)@.len() + chunk@.len() <= usize::MAX {
                    old(self)@.len() + chunk@.len()
                } else {
                    usize::MAX as nat
                })
                &&& final(self)@ == Seq::<u8>::empty()
            },
            old(self)@.len() + chunk@.len() <= MAX_FRAME_SIZE ==> {
                &&& final(self)@ == old(self)@ + chunk@
                &&& (r is Complete) <==> ends_with_term(old(self)@ + chunk@)
                &&& (r is NeedMore) <==> !ends_with_term(old(self)@ + chunk@)
            },
    {
        let len = self.len();
        if chunk.len() > MAX_FRAME_SIZE - len {
            let idx = match len.checked_add(chunk.len()) {
                Some(t) => t,
                None => usize::MAX,
            };
            bytes_mut_clear(&mut self.buf);
            return PushOutcome::Overflow { max_len: MAX_FRAME_SIZE, idx };
        }
        bytes_mut_extend(&mut self.buf, chunk);
        if self.tail_is_terminator() {
            PushOutcome::Complete
        } else {
            PushOutcome::NeedMore
        }
    }
}

/// The per-transaction engine over one concrete channel: stateless across
/// transactions beyond its read buffer, which every transaction clears
/// before reading.
pub struct Connection<C: Channel> {
    /// The underlying byte channel.
    pub channel: C,
    acc: FrameAccumulator,
}

impl<C: Channel> Connection<C> {
    /// The request text this connection's channel has carried.
    pub closed spec fn written(&self) -> Seq<char> {
        self.channel.written()
    }

    /// The bytes currently held in the read buffer.
    pub closed spec fn buffered(&self) -> Seq<u8> {
        self.acc@
    }

    /// The read buffer never exceeds the frame limit between calls.
    pub closed spec fn wf(&self) -> bool {
        self.acc@.len() <= MAX_FRAME_SIZE
    }

    /// Wraps a channel in a transaction engine with an empty read buffer.
    pub fn new(channel: C) -> (r: Self)
        ensures
            r.wf(),
            r.written() == channel.written(),
            r.buffered().len() == 0,
    {
        Connection { channel, acc: FrameAccumulator::new() }
    }

    /// The chunked read loop: accumulates bytes until the terminator
    /// appears, the frame limit is passed, end-of-stream is seen, or the
    /// deadline (or the poll backstop) runs out. Pending reads are
    /// expected polling artifacts and are retried silently.
    fn read_response(&mut self) -> (r: Result<(), Error>)
        requires
            old(self).wf(),
        ensures
            final(self).wf(),
            final(self).written() == old(self).written(),
            r matches Err(e) ==> match e {
                Error::BufOverflow { max_len, idx } => max_len == MAX_FRAME_SIZE && idx
                    > MAX_FRAME_SIZE && final(self).buffered().len() == 0,
                Error::Io(_) => true,
                _ => false,
            },
    {
        self.acc.clear();
        self.channel.reset_deadline();
        let mut polls_left: usize = MAX_POLLS;
        loop
            invariant
                self.wf(),
                self.channel.written() == old(self).written(),
            decreases polls_left,
        {
            if polls_left == 0 {
                break;
            }
            polls_left = polls_left - 1;
            if self.channel.deadline_expired() {
                break;
            }
            if self.acc.tail_is_terminator() {
                break;
            }
            match self.channel.read_chunk() {
                ChunkRead::Data(chunk) => {
                    match self.acc.push_chunk(chunk.as_slice()) {
                        PushOutcome::Overflow { max_len, idx } => {
                            return Err(Error::BufOverflow { max_len, idx });
                        },
                        PushOutcome::Complete => {
                            break;
                        },
                        PushOutcome::NeedMore => {},
                    }
                },
                ChunkRead::Eof => {
                    break;
                },
                ChunkRead::Pending => {},
                ChunkRead::Failed(m) => {
                    return Err(Error::Io(m));
                },
            }
        }
        Ok(())
    }

    /// One full request/response exchange: clear both directions so no
    /// stale bytes survive, write and flush the payload, read until a
    /// frame boundary, and decode. On success the channel has carried
    /// exactly this command's payload beyond what it had already carried;
    /// a transaction that failed before the write leaves it untouched.
    pub fn transact(&mut self, cmd: &Command) -> (r: Result<Frame, Error>)
        requires
            old(self).wf(),
        ensures
            final(self).wf(),
            r is Ok ==> final(self).written() == old(self).written() + cmd.payload@,
            final(self).written() == old(self).written() || final(self).written() == old(
                self,
            ).written() + cmd.payload@,
            r matches Err(e) ==> (e matches Error::BufOverflow { max_len, idx } ==> max_len
                == MAX_FRAME_SIZE && idx > MAX_FRAME_SIZE && final(self).buffered().len() == 0),
            r matches Ok(f) ==> crate::codec::frame_decodes(final(self).buffered(), f),
            r matches Err(e) ==> (e is Io || e is BufOverflow || crate::codec::decode_fails(
                final(self).buffered(),
                e,
            )),
            r matches Ok(f) ==> match f {
                Frame::Error(_) => true,
                Frame::CommaDelimited(v) => v@.len() >= 1,
                Frame::CrDelimited(v) => v@.len() >= 1,
            },
    {
        match self.channel.clear_output() {
            Ok(_) => {},
            Err(m) => {
                return Err(Error::Io(m));
            },
        }
        match self.channel.clear_input() {
            Ok(_) => {},
            Err(m) => {
                return Err(Error::Io(m));
            },
        }
        match self.channel.send(self.cmd_payload_str(cmd)) {
            Ok(_) => {},
            Err(m) => {
                return Err(Error::Io(m));
            },
        }
        match self.read_response() {
            Ok(_) => {},
            Err(e) => {
                return Err(e);
            },
        }
        let r = decode(self.acc.bytes());
        proof {
            let bytes = self.acc@;
            if vstd::utf8::valid_utf8(bytes) {
                let text = vstd::utf8::decode_utf8(bytes);
                crate::codec::lemma_split_on_nonempty(crate::codec::strip_term(text), ',');
                crate::codec::lemma_split_on_nonempty(crate::codec::strip_term(text), '\r');
            }
            match &r {
                Ok(Frame::CommaDelimited(v)) => {
                    assert(v.deep_view().len() == v@.len());
                },
                Ok(Frame::CrDelimited(v)) => {
                    assert(v.deep_view().len() == v@.len());
                },
                _ => {},
            }
        }
        r
    }

    /// The payload text of a command, borrowed for sending.
    fn cmd_payload_str<'a>(&self, cmd: &'a Command) -> (r: &'a str)
        ensures
            r@ == cmd.payload@,
    {
        cmd.payload.as_str()
    }
}

} // verus!
