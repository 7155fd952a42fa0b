//! Request / response types of the peer-to-peer sharing protocol and its frame codec.
//!
//! A frame is a 4-byte big-endian length followed by that many payload bytes; a frame may
//! not announce more than `MAX_FRAME_SIZE` bytes.
use crate::lan::{LanError, MAX_FRAME_SIZE};
use vstd::prelude::*;

verus! {

/// Requests a peer may send.
#[derive(Debug, Clone)]
pub enum Request {
    /// Public memos of the peer, one page, optionally only those with all the given tags.
    ListMemos { offset: u32, limit: u32, tag_filter: Option<Vec<String>> },
    /// One memo in full.
    GetMemo { uid: String },
    /// The bytes of one attachment.
    GetAttachment { uid: String },
    /// Display name and public memo statistics.
    GetProfile,
}

/// Answer to a request (`Success` is sent as status `Ok`, `Failure` as status `Err`).
#[derive(Debug, Clone)]
pub enum Response {
    Success { data: ResponseData },
    Failure { code: u16, message: String },
}

/// Payload of a successful answer.
#[derive(Debug, Clone)]
pub enum ResponseData {
    MemoList { memos: Vec<RemoteMemoSummary>, total: u32 },
    Memo(RemoteMemo),
    Attachment { content: Vec<u8>, mime_type: String },
    Profile { display_name: String, public_memo_count: u32, tags: Vec<String> },
}

/// One entry of a memo list.
#[derive(Debug, Clone)]
pub struct RemoteMemoSummary {
    pub uid: String,
    pub created_ts: i64,
    pub updated_ts: i64,
    pub pinned: bool,
    pub snippet: String,
    pub tags: Vec<String>,
    pub has_attachments: bool,
}

/// A memo in full.
#[derive(Debug, Clone)]
pub struct RemoteMemo {
    pub uid: String,
    pub created_ts: i64,
    pub updated_ts: i64,
    pub pinned: bool,
    pub content: String,
    pub attachments: Vec<RemoteAttachmentSummary>,
}

/// Attachment metadata.
#[derive(Debug, Clone)]
pub struct RemoteAttachmentSummary {
    pub uid: String,
    pub filename: String,
    pub mime_type: String,
    pub size: u64,
}

/// The 4 big-endian bytes of `n`.
pub open spec fn be32(n: u32) -> Seq<u8> {
    seq![
        (n / 0x100_0000) as u8,
        ((n / 0x1_0000) % 0x100) as u8,
        ((n / 0x100) % 0x100) as u8,
        (n % 0x100) as u8,
    ]
}

/// The number that 4 big-endian bytes stand for.
pub open spec fn from_be32(b: Seq<u8>) -> int {
    (b[0] as int) * 0x100_0000 + (b[1] as int) * 0x1_0000 + (b[2] as int) * 0x100 + (b[3] as int)
}

/// A whole frame for `payload`: its length (cut to 32 bits, as `as u32` cuts it) then the bytes.
pub open spec fn frame(payload: Seq<u8>) -> Seq<u8> {
    be32(payload.len() as u32) + payload
}

pub proof fn lemma_be32_round_trip(n: u32)
    ensures
        be32(n).len() == 4,
        from_be32(be32(n)) == n,
{
    let b = be32(n);
    assert(from_be32(b) == n) by (nonlinear_arith)
        requires
            b[0] == (n / 0x100_0000) as u8,
            b[1] == ((n / 0x1_0000) % 0x100) as u8,
            b[2] == ((n / 0x100) % 0x100) as u8,
            b[3] == (n % 0x100) as u8,
            n <= 0xffff_ffff,
    ;
}

/// Appends a frame for `payload` to `buf`: 4-byte big-endian length, then the payload.
pub fn write_frame(buf: &mut Vec<u8>, payload: &[u8]) -> (r: Result<(), LanError>)
    ensures
        r is Ok,
        final(buf)@ == old(buf)@ + frame(payload@),
{
    let len = payload.len() as u32;
    buf.push((len / 0x100_0000) as u8);
    buf.push(((len / 0x1_0000) % 0x100) as u8);
    buf.push(((len / 0x100) % 0x100) as u8);
    buf.push((len % 0x100) as u8);
    let ghost mid = buf@;
    let mut i: usize = 0;
    while i < payload.len()
        invariant
            i <= payload.len(),
            buf@ == mid + payload@.take(i as int),
        decreases payload.len() - i,
    {
        buf.push(payload[i]);
        i = i + 1;
        assert(payload@.take(i as int) =~= payload@.take(i - 1) + seq![payload@[i - 1]]);
    }
    assert(payload@.take(payload.len() as int) =~= payload@);
    assert(buf@ =~= old(buf)@ + frame(payload@));
    Ok(())
}

/// A byte source read front to back, as a stream is.
pub struct SliceReader {
    data: Vec<u8>,
    pos: usize,
}

impl SliceReader {
    /// Bytes not read yet.
    pub closed spec fn remaining(&self) -> Seq<u8> {
        self.data@.skip(self.pos as int)
    }

    pub closed spec fn wf(&self) -> bool {
        self.pos <= self.data.len()
    }

    /// A reader over `data`, at its start.
    pub fn new(data: Vec<u8>) -> (r: SliceReader)
        ensures
            r.wf(),
            r.remaining() == data@,
    {
        let r = SliceReader { data, pos: 0 };
        assert(r.data@.skip(0) =~= r.data@);
        r
    }

    /// Number of bytes not read yet.
    pub fn remaining_len(&self) -> (n: usize)
        requires
            self.wf(),
        ensures
            n == self.remaining().len(),
    {
        self.data.len() - self.pos
    }

    /// Reads exactly `n` bytes. When fewer remain the reader is drained and the stream is
    /// reported closed, as `Read::read_exact` reports an unexpected end of file.
    pub fn read_exact(&mut self, n: usize) -> (r: Result<Vec<u8>, LanError>)
        requires
            old(self).wf(),
        ensures
            final(self).wf(),
            n <= old(self).remaining().len() ==> r == Ok::<Vec<u8>, LanError>(r->Ok_0) && r->Ok_0@
                == old(self).remaining().take(n as int) && final(self).remaining() == old(
                self,
            ).remaining().skip(n as int),
            n > old(self).remaining().len() ==> r == Err::<Vec<u8>, LanError>(
                LanError::ConnectionClosed,
            ) && final(self).remaining().len() == 0,
    {
        if n > self.data.len() - self.pos {
            self.pos = self.data.len();
            assert(self.data@.skip(self.pos as int) =~= seq![]);
            return Err(LanError::ConnectionClosed);
        }
        let mut out: Vec<u8> = Vec::new();
        let start = self.pos;
        while self.pos < start + n
            invariant
                start <= self.pos <= start + n <= self.data.len(),
                self.data@ == old(self).data@,
                start == old(self).pos,
                out@ == self.data@.subrange(start as int, self.pos as int),
            decreases start + n - self.pos,
        {
            out.push(self.data[self.pos]);
            self.pos = self.pos + 1;
            assert(self.data@.subrange(start as int, self.pos as int) =~= self.data@.subrange(
                start as int,
                self.pos - 1,
            ) + seq![self.data@[self.pos - 1]]);
        }
        assert(out@ =~= old(self).remaining().take(n as int));
        assert(self.data@.skip(self.pos as int) =~= old(self).remaining().skip(n as int));
        Ok(out)
    }
}

/// The payload length a frame header announces; more than `MAX_FRAME_SIZE` is refused
/// with `FrameTooLarge`.
pub fn frame_length(header: &[u8]) -> (r: Result<usize, LanError>)
    requires
        header@.len() == 4,
    ensures
        from_be32(header@) > MAX_FRAME_SIZE ==> r == Err::<usize, LanError>(
            LanError::FrameTooLarge(from_be32(header@) as usize),
        ),
        from_be32(header@) <= MAX_FRAME_SIZE ==> r == Ok::<usize, LanError>(
            from_be32(header@) as usize,
        ),
{
    let len: usize = (header[0] as usize) * 0x100_0000 + (header[1] as usize) * 0x1_0000
        + (header[2] as usize) * 0x100 + (header[3] as usize);
    if len > MAX_FRAME_SIZE {
        Err(LanError::FrameTooLarge(len))
    } else {
        Ok(len)
    }
}

/// Reads one frame: the announced length, then that many payload bytes.
///
/// A length above `MAX_FRAME_SIZE` is refused with `FrameTooLarge`; a stream that ends
/// before the header or the payload is complete gives `ConnectionClosed`.
pub fn read_frame(reader: &mut SliceReader) -> (r: Result<Vec<u8>, LanError>)
    requires
        old(reader).wf(),
    ensures
        final(reader).wf(),
        ({
            let s = old(reader).remaining();
            if s.len() < 4 {
                r == Err::<Vec<u8>, LanError>(LanError::ConnectionClosed)
            } else if from_be32(s.take(4)) > MAX_FRAME_SIZE {
                r == Err::<Vec<u8>, LanError>(LanError::FrameTooLarge(from_be32(s.take(4)) as usize))
                    && final(reader).remaining() == s.skip(4)
            } else if s.len() < 4 + from_be32(s.take(4)) {
                r == Err::<Vec<u8>, LanError>(LanError::ConnectionClosed)
            } else {
                r == Ok::<Vec<u8>, LanError>(r->Ok_0) && r->Ok_0@ == s.subrange(
                    4,
                    4 + from_be32(s.take(4)),
                ) && final(reader).remaining() == s.skip(4 + from_be32(s.take(4)))
            }
        }),
{
    let ghost s = reader.remaining();
    let header = match reader.read_exact(4) {
        Ok(h) => h,
        Err(e) => return Err(e),
    };
    assert(header@ =~= s.take(4));
    let len = match frame_length(header.as_slice()) {
        Ok(n) => n,
        Err(e) => return Err(e),
    };
    let payload = reader.read_exact(len);
    proof {
        if len + 4 <= s.len() {
            assert(s.skip(4).take(len as int) =~= s.subrange(4, 4 + len));
            assert(s.skip(4).skip(len as int) =~= s.skip(4 + len));
        }
    }
    payload
}

/// A successful answer carrying `data`.
pub fn ok(data: ResponseData) -> (r: Response)
    ensures
        r == (Response::Success { data }),
{
    Response::Success { data }
}

/// An error answer with `code` and `message`.
pub fn err(code: u16, message: String) -> (r: Response)
    ensures
        r == (Response::Failure { code, message }),
{
    Response::Failure { code, message }
}

/// Law: reading from a stream that starts with a frame written for a payload of at most
/// `MAX_FRAME_SIZE` bytes gives back exactly that payload and leaves the stream just after it.
pub proof fn law_frame_round_trip(payload: Seq<u8>, rest: Seq<u8>)
    requires
        payload.len() <= MAX_FRAME_SIZE,
    ensures
        ({
            let s = frame(payload) + rest;
            &&& s.len() >= 4
            &&& from_be32(s.take(4)) == payload.len()
            &&& s.subrange(4, 4 + from_be32(s.take(4))) == payload
            &&& s.skip(4 + from_be32(s.take(4))) == rest
        }),
{
    let n = payload.len() as u32;
    assert(n == payload.len());
    lemma_be32_round_trip(n);
    let s = frame(payload) + rest;
    assert(s.take(4) =~= be32(n));
    assert(s.subrange(4, 4 + payload.len() as int) =~= payload);
    assert(s.skip(4 + payload.len() as int) =~= rest);
}

} // verus!
