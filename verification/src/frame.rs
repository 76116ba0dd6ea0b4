use vstd::prelude::*;
use vstd::slice::slice_subrange;
use vstd::slice::slice_to_vec;
use vstd::utf8::decode_utf8;
use vstd::utf8::encode_utf8;
use vstd::utf8::valid_utf8;

use std::string::FromUtf8Error;

verus! {

// ---------------------------------------------------------------------------
// Outside types and calls
// ---------------------------------------------------------------------------

#[verifier::external_type_specification]
#[verifier::external_body]
pub struct ExBytes(bytes::Bytes);

#[verifier::external_type_specification]
#[verifier::external_body]
pub struct ExFromUtf8Error(FromUtf8Error);

/// The bytes held by a `bytes::Bytes` buffer.
pub uninterp spec fn bytes_content(b: bytes::Bytes) -> Seq<u8>;

/// `bytes::Bytes::copy_from_slice`: the new buffer holds a copy of `data`.
#[verifier::external_body]
fn bytes_copy_from_slice(data: &[u8]) -> (b: bytes::Bytes)
    ensures
        bytes_content(b) == data@,
{
    bytes::Bytes::copy_from_slice(data)
}

/// `<bytes::Bytes as From<Vec<u8>>>::from`: the buffer holds the bytes of
/// `v`.
#[verifier::external_body]
pub(crate) fn bytes_from_vec(v: Vec<u8>) -> (b: bytes::Bytes)
    ensures
        bytes_content(b) == v@,
{
    bytes::Bytes::from(v)
}

/// `<bytes::Bytes as AsRef<[u8]>>::as_ref`: a view of the held bytes.
#[verifier::external_body]
pub(crate) fn bytes_as_slice(b: &bytes::Bytes) -> (s: &[u8])
    ensures
        s@ == bytes_content(*b),
{
    b.as_ref()
}

/// `String::from_utf8` succeeds exactly on valid UTF-8 and then holds the
/// decoded characters.
pub assume_specification[ String::from_utf8 ](vec: Vec<u8>) -> (res: Result<String, FromUtf8Error>)
    ensures
        res is Ok <==> valid_utf8(vec@),
        res matches Ok(s) ==> s@ == decode_utf8(vec@),
;

} // verus!

verus! {

// ---------------------------------------------------------------------------
// Wire format constants and byte-level specifications
// ---------------------------------------------------------------------------

/// Tag of a folder announcement: `.` followed by a little-endian `u32`.
pub const TAG_DB_SYNC: u8 = 0x2e;

/// Tag of an acceptance: `+`.
pub const TAG_YES: u8 = 0x2b;

/// Tag of a refusal: `-`.
pub const TAG_NO: u8 = 0x2d;

/// Tag of an end marker: `*`.
pub const TAG_DONE: u8 = 0x2a;

/// Tag of a file state: `!`, 32 hash bytes, a little-endian `i64`, then two
/// `\r\n`-terminated lines (peer, path).
pub const TAG_INITIATOR_GLOBAL: u8 = 0x21;

/// Tag of a file request: `?`, a little-endian `u32`, then a
/// `\r\n`-terminated path.
pub const TAG_REQUEST_FILE: u8 = 0x3f;

/// Tag of file content: `=`, a little-endian `i64` size, then the data.
pub const TAG_FILE: u8 = 0x3d;

/// Carriage return.
pub const CR: u8 = 0x0d;

/// Line feed.
pub const LF: u8 = 0x0a;

/// Length of a SHA-256 digest.
pub const HASH_LEN: usize = 32;

/// Number of bytes left to read from `pos`.
pub open spec fn remaining(buf: Seq<u8>, pos: int) -> int {
    if pos < buf.len() {
        buf.len() - pos
    } else {
        0
    }
}

/// Little-endian `u32` stored at `buf[at..at + 4]`.
pub open spec fn le_u32(buf: Seq<u8>, at: int) -> u32 {
    (buf[at] as u32) | ((buf[at + 1] as u32) << 8u32) | ((buf[at + 2] as u32) << 16u32) | ((buf[at
        + 3] as u32) << 24u32)
}

/// Little-endian `u64` stored at `buf[at..at + 8]`.
pub open spec fn le_u64(buf: Seq<u8>, at: int) -> u64 {
    (buf[at] as u64) | ((buf[at + 1] as u64) << 8u64) | ((buf[at + 2] as u64) << 16u64) | ((buf[at
        + 3] as u64) << 24u64) | ((buf[at + 4] as u64) << 32u64) | ((buf[at + 5] as u64) << 40u64)
        | ((buf[at + 6] as u64) << 48u64) | ((buf[at + 7] as u64) << 56u64)
}

/// Little-endian two's complement `i64` stored at `buf[at..at + 8]`.
pub open spec fn le_i64(buf: Seq<u8>, at: int) -> i64 {
    le_u64(buf, at) as i64
}

/// The four little-endian bytes of `v`.
pub open spec fn u32_le_bytes(v: u32) -> Seq<u8> {
    seq![(v & 0xff) as u8, ((v >> 8u32) & 0xff) as u8, ((v >> 16u32) & 0xff) as u8, ((v >> 24u32) & 0xff) as u8]
}

/// The eight little-endian bytes of `v`.
pub open spec fn u64_le_bytes(v: u64) -> Seq<u8> {
    seq![
        (v & 0xff) as u8,
        ((v >> 8u64) & 0xff) as u8,
        ((v >> 16u64) & 0xff) as u8,
        ((v >> 24u64) & 0xff) as u8,
        ((v >> 32u64) & 0xff) as u8,
        ((v >> 40u64) & 0xff) as u8,
        ((v >> 48u64) & 0xff) as u8,
        ((v >> 56u64) & 0xff) as u8,
    ]
}

/// The eight little-endian two's complement bytes of `v`.
pub open spec fn i64_le_bytes(v: i64) -> Seq<u8> {
    u64_le_bytes(v as u64)
}

/// `buf` holds `\r\n` at `i`.
pub open spec fn is_crlf_at(buf: Seq<u8>, i: int) -> bool {
    0 <= i && i + 1 < buf.len() && buf[i] == CR && buf[i + 1] == LF
}

/// The first position at or after `start` holding `\r\n`.
pub open spec fn first_crlf(buf: Seq<u8>, start: int) -> Option<int>
    decreases buf.len() - start,
{
    if start < 0 || start + 1 >= buf.len() {
        None
    } else if is_crlf_at(buf, start) {
        Some(start)
    } else {
        first_crlf(buf, start + 1)
    }
}

/// `bytes` holds no `\r\n`.
pub open spec fn has_no_crlf(bytes: Seq<u8>) -> bool {
    forall|i: int| !#[trigger] is_crlf_at(bytes, i)
}

// ---------------------------------------------------------------------------
// Cursor
// ---------------------------------------------------------------------------

/// A read position over a borrowed byte buffer.
///
/// The position may lie beyond the end of the buffer; there is then nothing
/// left to read.
pub struct Cursor<'a> {
    inner: &'a [u8],
    pos: u64,
}

impl<'a> Cursor<'a> {
    /// The bytes the cursor reads from.
    pub closed spec fn buf(&self) -> Seq<u8> {
        self.inner@
    }

    /// The current read position.
    pub closed spec fn pos(&self) -> int {
        self.pos as int
    }

    /// Creates a cursor at position 0 of `inner`.
    pub fn new(inner: &'a [u8]) -> (c: Cursor<'a>)
        ensures
            c.buf() == inner@,
            c.pos() == 0,
    {
        Cursor { inner, pos: 0 }
    }

    /// Returns the current position.
    pub fn position(&self) -> (p: u64)
        ensures
            p == self.pos(),
    {
        self.pos
    }

    /// Moves the cursor to `pos`.
    pub fn set_position(&mut self, pos: u64)
        ensures
            final(self).buf() == old(self).buf(),
            final(self).pos() == pos,
    {
        self.pos = pos;
    }

    /// Returns the whole underlying buffer.
    pub fn get_ref(&self) -> (r: &'a [u8])
        ensures
            r@ == self.buf(),
    {
        self.inner
    }

    /// Number of bytes left to read.
    pub fn remaining(&self) -> (r: usize)
        ensures
            r == remaining(self.buf(), self.pos()),
    {
        let len = self.inner.len();
        if self.pos >= len as u64 {
            0
        } else {
            len - self.pos as usize
        }
    }

    /// The bytes left to read.
    pub fn chunk(&self) -> (r: &'a [u8])
        ensures
            r@ == self.buf().subrange(
                if self.pos() < self.buf().len() { self.pos() } else { self.buf().len() as int },
                self.buf().len() as int,
            ),
    {
        let len = self.inner.len();
        let start = if self.pos >= len as u64 { len } else { self.pos as usize };
        slice_subrange(self.inner, start, len)
    }

    /// Moves the position forward by `n` bytes.
    pub fn advance(&mut self, n: usize)
        requires
            n <= remaining(old(self).buf(), old(self).pos()),
        ensures
            final(self).buf() == old(self).buf(),
            final(self).pos() == old(self).pos() + n,
    {
        if n > 0 {
            // `n` bytes are left, so the buffer reaches past the position
            let end: u64 = self.inner.len() as u64;
            assert(self.pos() + n <= end);
            self.pos = self.pos + n as u64;
        }
    }

    /// Reads one byte.
    pub fn get_u8(&mut self) -> (b: u8)
        requires
            remaining(old(self).buf(), old(self).pos()) >= 1,
        ensures
            final(self).buf() == old(self).buf(),
            final(self).pos() == old(self).pos() + 1,
            b == old(self).buf()[old(self).pos()],
    {
        let b = self.inner[self.pos as usize];
        self.pos = self.pos + 1;
        b
    }

    /// Reads a little-endian `u32`.
    pub fn get_u32_le(&mut self) -> (v: u32)
        requires
            remaining(old(self).buf(), old(self).pos()) >= 4,
        ensures
            final(self).buf() == old(self).buf(),
            final(self).pos() == old(self).pos() + 4,
            v == le_u32(old(self).buf(), old(self).pos()),
    {
        let p = self.pos as usize;
        let b0 = self.inner[p];
        let b1 = self.inner[p + 1];
        let b2 = self.inner[p + 2];
        let b3 = self.inner[p + 3];
        self.pos = self.pos + 4;
        (b0 as u32) | ((b1 as u32) << 8u32) | ((b2 as u32) << 16u32) | ((b3 as u32) << 24u32)
    }

    /// Reads a little-endian two's complement `i64`.
    pub fn get_i64_le(&mut self) -> (v: i64)
        requires
            remaining(old(self).buf(), old(self).pos()) >= 8,
        ensures
            final(self).buf() == old(self).buf(),
            final(self).pos() == old(self).pos() + 8,
            v == le_i64(old(self).buf(), old(self).pos()),
    {
        let p = self.pos as usize;
        let b0 = self.inner[p];
        let b1 = self.inner[p + 1];
        let b2 = self.inner[p + 2];
        let b3 = self.inner[p + 3];
        let b4 = self.inner[p + 4];
        let b5 = self.inner[p + 5];
        let b6 = self.inner[p + 6];
        let b7 = self.inner[p + 7];
        self.pos = self.pos + 8;
        let u: u64 = (b0 as u64) | ((b1 as u64) << 8u64) | ((b2 as u64) << 16u64) | ((b3 as u64)
            << 24u64) | ((b4 as u64) << 32u64) | ((b5 as u64) << 40u64) | ((b6 as u64) << 48u64)
            | ((b7 as u64) << 56u64);
        u as i64
    }
}

} // verus!

verus! {

// ---------------------------------------------------------------------------
// Frames and their abstract values
// ---------------------------------------------------------------------------

/// A message exchanged between two peers.
#[derive(Debug)]
pub enum Frame {
    /// `.`: announces a folder whose database state follows.
    DbSync { folder_id: u32 },
    /// `+`
    Yes,
    /// `-`
    No,
    /// `*`
    Done,
    /// `!`: the global state of one file.
    InitiatorGlobal {
        global_hash: bytes::Bytes,
        global_last_modified: i64,
        global_peer: String,
        path: String,
    },
    /// `?`: asks for the content of a file.
    RequestFile { folder_id: u32, path: String },
    /// `=`: the content of a file.
    File { size: i64, data: bytes::Bytes },
}

/// The mathematical value of a [`Frame`].
pub enum FrameView {
    DbSync { folder_id: u32 },
    Yes,
    No,
    Done,
    InitiatorGlobal {
        global_hash: Seq<u8>,
        global_last_modified: i64,
        global_peer: Seq<char>,
        path: Seq<char>,
    },
    RequestFile { folder_id: u32, path: Seq<char> },
    File { size: i64, data: Seq<u8> },
}

impl View for Frame {
    type V = FrameView;

    open spec fn view(&self) -> FrameView {
        match self {
            Frame::DbSync { folder_id } => FrameView::DbSync { folder_id: *folder_id },
            Frame::Yes => FrameView::Yes,
            Frame::No => FrameView::No,
            Frame::Done => FrameView::Done,
            Frame::InitiatorGlobal { global_hash, global_last_modified, global_peer, path } =>
                FrameView::InitiatorGlobal {
                global_hash: bytes_content(*global_hash),
                global_last_modified: *global_last_modified,
                global_peer: global_peer@,
                path: path@,
            },
            Frame::RequestFile { folder_id, path } => FrameView::RequestFile {
                folder_id: *folder_id,
                path: path@,
            },
            Frame::File { size, data } => FrameView::File { size: *size, data: bytes_content(*data) },
        }
    }
}

/// Why a frame could not be read.
#[derive(Debug)]
pub enum Error {
    /// Not enough data available to parse a message.
    Incomplete,
    /// A text field is not valid UTF-8.
    ParseError(FromUtf8Error),
    /// The bytes are no frame: an unknown tag, or a file size that is
    /// negative or does not fit in memory.
    Invalid,
}

/// The kind of an [`Error`].
pub enum ErrorKind {
    Incomplete,
    Utf8,
    Invalid,
}

/// The kind of `e`.
pub open spec fn error_kind(e: Error) -> ErrorKind {
    match e {
        Error::Incomplete => ErrorKind::Incomplete,
        Error::ParseError(_) => ErrorKind::Utf8,
        Error::Invalid => ErrorKind::Invalid,
    }
}

/// The abstract value of a parse result.
pub open spec fn parse_result_view(r: Result<Frame, Error>) -> Result<FrameView, ErrorKind> {
    match r {
        Ok(f) => Ok(f@),
        Err(e) => Err(error_kind(e)),
    }
}

/// `b` is one of the seven frame tags.
pub open spec fn is_known_tag(b: u8) -> bool {
    b == TAG_DB_SYNC || b == TAG_YES || b == TAG_NO || b == TAG_DONE || b == TAG_INITIATOR_GLOBAL
        || b == TAG_REQUEST_FILE || b == TAG_FILE
}

/// Outcome of skipping `n` bytes from `pos`: success, and the position after.
pub open spec fn skip_outcome(buf: Seq<u8>, pos: int, n: int) -> (bool, int) {
    if remaining(buf, pos) < n {
        (false, pos)
    } else {
        (true, pos + n)
    }
}

/// Outcome of reading one `\r\n`-terminated line at `pos`: success, and the
/// position after.
pub open spec fn line_outcome(buf: Seq<u8>, pos: int) -> (bool, int) {
    match first_crlf(buf, pos) {
        Some(i) => (true, i + 2),
        None => (false, pos),
    }
}

/// The bytes at `pos` are no frame: the tag is unknown, or a file frame
/// carries a complete size that is negative or does not fit in memory.
pub open spec fn check_invalid(buf: Seq<u8>, pos: int) -> bool {
    0 <= pos < buf.len() && {
        let tag = buf[pos];
        ||| !is_known_tag(tag)
        ||| tag == TAG_FILE && remaining(buf, pos + 1) >= 8 && !(0 <= le_i64(buf, pos + 1)
            <= usize::MAX)
    }
}

/// Outcome of `Frame::check` on `buf` at `pos`: whether a whole frame is
/// there, and the position where checking stopped (the end of the frame on
/// success).
pub open spec fn check_outcome(buf: Seq<u8>, pos: int) -> (bool, int) {
    if pos < 0 || pos >= buf.len() {
        (false, pos)
    } else {
        let tag = buf[pos];
        let p = pos + 1;
        if tag == TAG_DB_SYNC {
            skip_outcome(buf, p, 4)
        } else if tag == TAG_YES || tag == TAG_NO || tag == TAG_DONE {
            (true, p)
        } else if tag == TAG_INITIATOR_GLOBAL {
            let s = skip_outcome(buf, p, 40);
            if !s.0 {
                s
            } else {
                let l1 = line_outcome(buf, s.1);
                if !l1.0 {
                    l1
                } else {
                    line_outcome(buf, l1.1)
                }
            }
        } else if tag == TAG_REQUEST_FILE {
            let s = skip_outcome(buf, p, 4);
            if !s.0 {
                s
            } else {
                line_outcome(buf, s.1)
            }
        } else if tag == TAG_FILE {
            if remaining(buf, p) < 8 {
                (false, p)
            } else if !(0 <= le_i64(buf, p) <= usize::MAX) {
                (false, p + 8)
            } else {
                skip_outcome(buf, p + 8, le_i64(buf, p) as int)
            }
        } else {
            (false, p)
        }
    }
}

/// `Frame::parse` on `buf` at `pos` does not panic: the tag is known and the
/// fixed-size fields it reads are there.
pub open spec fn parse_defined(buf: Seq<u8>, pos: int) -> bool {
    pos >= buf.len() || {
        let tag = buf[pos];
        let rest = remaining(buf, pos + 1);
        &&& is_known_tag(tag)
        &&& (tag == TAG_DB_SYNC || tag == TAG_REQUEST_FILE) ==> rest >= 4
        &&& tag == TAG_INITIATOR_GLOBAL ==> rest >= 40
        &&& tag == TAG_FILE ==> {
            &&& rest >= 8
            &&& 0 <= le_i64(buf, pos + 1) <= rest - 8
        }
    }
}

/// Outcome of reading a UTF-8 line at `pos`: the decoded text or the error,
/// and the position after.
pub open spec fn text_line_outcome(buf: Seq<u8>, pos: int) -> (Result<Seq<char>, ErrorKind>, int) {
    match first_crlf(buf, pos) {
        None => (Err(ErrorKind::Incomplete), pos),
        Some(i) => {
            let bytes = buf.subrange(pos, i);
            if valid_utf8(bytes) {
                (Ok(decode_utf8(bytes)), i + 2)
            } else {
                (Err(ErrorKind::Utf8), i + 2)
            }
        },
    }
}

/// Outcome of `Frame::parse` on `buf` at `pos`: the frame or the error, and
/// the position where parsing stopped.
pub open spec fn parse_outcome(buf: Seq<u8>, pos: int) -> (Result<FrameView, ErrorKind>, int) {
    if pos < 0 || pos >= buf.len() {
        (Err(ErrorKind::Incomplete), pos)
    } else {
        let tag = buf[pos];
        let p = pos + 1;
        if tag == TAG_DB_SYNC {
            (Ok(FrameView::DbSync { folder_id: le_u32(buf, p) }), p + 4)
        } else if tag == TAG_YES {
            (Ok(FrameView::Yes), p)
        } else if tag == TAG_NO {
            (Ok(FrameView::No), p)
        } else if tag == TAG_DONE {
            (Ok(FrameView::Done), p)
        } else if tag == TAG_INITIATOR_GLOBAL {
            let peer = text_line_outcome(buf, p + 40);
            match peer.0 {
                Err(e) => (Err(e), peer.1),
                Ok(global_peer) => {
                    let path = text_line_outcome(buf, peer.1);
                    match path.0 {
                        Err(e) => (Err(e), path.1),
                        Ok(path_text) => (
                            Ok(
                                FrameView::InitiatorGlobal {
                                    global_hash: buf.subrange(p, p + 32),
                                    global_last_modified: le_i64(buf, p + 32),
                                    global_peer,
                                    path: path_text,
                                },
                            ),
                            path.1,
                        ),
                    }
                },
            }
        } else if tag == TAG_REQUEST_FILE {
            let path = text_line_outcome(buf, p + 4);
            match path.0 {
                Err(e) => (Err(e), path.1),
                Ok(path_text) => (
                    Ok(FrameView::RequestFile { folder_id: le_u32(buf, p), path: path_text }),
                    path.1,
                ),
            }
        } else {
            let size = le_i64(buf, p);
            (Ok(FrameView::File { size, data: buf.subrange(p + 8, p + 8 + size) }), p + 8)
        }
    }
}

} // verus!

verus! {

// ---------------------------------------------------------------------------
// Reading frames
// ---------------------------------------------------------------------------

proof fn lemma_first_crlf_found(buf: Seq<u8>, start: int, i: int)
    requires
        0 <= start <= i,
        is_crlf_at(buf, i),
        forall|k: int| start <= k < i ==> !#[trigger] is_crlf_at(buf, k),
    ensures
        first_crlf(buf, start) == Some(i),
    decreases i - start,
{
    if start < i {
        lemma_first_crlf_found(buf, start + 1, i);
    }
}

proof fn lemma_first_crlf_absent(buf: Seq<u8>, start: int)
    requires
        0 <= start,
        forall|k: int| start <= k < buf.len() - 1 ==> !#[trigger] is_crlf_at(buf, k),
    ensures
        first_crlf(buf, start) is None,
    decreases buf.len() - start,
{
    if start + 1 < buf.len() {
        lemma_first_crlf_absent(buf, start + 1);
    }
}

/// Reads the tag byte.
fn get_u8(src: &mut Cursor<'_>) -> (res: Result<u8, Error>)
    ensures
        final(src).buf() == old(src).buf(),
        remaining(old(src).buf(), old(src).pos()) >= 1 ==> {
            &&& res matches Ok(b) && b == old(src).buf()[old(src).pos()]
            &&& final(src).pos() == old(src).pos() + 1
        },
        remaining(old(src).buf(), old(src).pos()) < 1 ==> {
            &&& res matches Err(Error::Incomplete)
            &&& final(src).pos() == old(src).pos()
        },
{
    if src.remaining() == 0 {
        return Err(Error::Incomplete);
    }
    Ok(src.get_u8())
}

/// Skips `n` bytes, or fails without moving when fewer are left.
fn skip(src: &mut Cursor<'_>, n: usize) -> (res: Result<(), Error>)
    ensures
        final(src).buf() == old(src).buf(),
        res is Ok == skip_outcome(old(src).buf(), old(src).pos(), n as int).0,
        final(src).pos() == skip_outcome(old(src).buf(), old(src).pos(), n as int).1,
        res matches Err(e) ==> e is Incomplete,
{
    if src.remaining() < n {
        return Err(Error::Incomplete);
    }
    src.advance(n);
    Ok(())
}

/// Reads up to the first `\r\n` and moves past it; fails without moving
/// when there is none.
fn get_line<'a>(src: &mut Cursor<'a>) -> (res: Result<&'a [u8], Error>)
    requires
        old(src).buf().len() >= 1,
    ensures
        final(src).buf() == old(src).buf(),
        match first_crlf(old(src).buf(), old(src).pos()) {
            Some(i) => {
                &&& res matches Ok(line) && line@ == old(src).buf().subrange(old(src).pos(), i)
                &&& final(src).pos() == i + 2
            },
            None => {
                &&& res matches Err(Error::Incomplete)
                &&& final(src).pos() == old(src).pos()
            },
        },
{
    let buf = src.get_ref();
    let end = buf.len() - 1;
    if src.position() >= end as u64 {
        // No room for a `\r\n` at or after the position
        return Err(Error::Incomplete);
    }
    let start = src.position() as usize;
    let mut i = start;
    while i < end
        invariant
            buf@ == src.buf(),
            src.buf() == old(src).buf(),
            src.pos() == old(src).pos(),
            start == src.pos(),
            end == buf@.len() - 1,
            start <= i,
            i <= end || i == start,
            forall|k: int| start <= k < i ==> !#[trigger] is_crlf_at(buf@, k),
        decreases end - i,
    {
        if buf[i] == CR && buf[i + 1] == LF {
            proof {
                lemma_first_crlf_found(buf@, start as int, i as int);
            }
            src.set_position((i + 2) as u64);
            return Ok(slice_subrange(buf, start, i));
        }
        i = i + 1;
    }
    proof {
        lemma_first_crlf_absent(buf@, start as int);
    }
    Err(Error::Incomplete)
}

/// Reads one `\r\n`-terminated UTF-8 line as a `String`.
fn get_text_line(src: &mut Cursor<'_>) -> (res: Result<String, Error>)
    requires
        old(src).buf().len() >= 1,
    ensures
        final(src).buf() == old(src).buf(),
        final(src).pos() == text_line_outcome(old(src).buf(), old(src).pos()).1,
        match text_line_outcome(old(src).buf(), old(src).pos()).0 {
            Ok(text) => res matches Ok(s) && s@ == text,
            Err(k) => res matches Err(e) && error_kind(e) == k,
        },
{
    let line = get_line(src)?;
    match String::from_utf8(slice_to_vec(line)) {
        Ok(s) => Ok(s),
        Err(e) => Err(Error::ParseError(e)),
    }
}

impl Frame {
    /// Checks whether a whole frame can be read at the cursor and moves the
    /// cursor to its end.
    ///
    /// On failure the cursor stays where checking stopped: the error is
    /// `Invalid` when the bytes are no frame, `Incomplete` when more data is
    /// needed.
    pub fn check(src: &mut Cursor<'_>) -> (res: Result<(), Error>)
        ensures
            final(src).buf() == old(src).buf(),
            res is Ok == check_outcome(old(src).buf(), old(src).pos()).0,
            final(src).pos() == check_outcome(old(src).buf(), old(src).pos()).1,
            res matches Err(e) ==> error_kind(e) == if check_invalid(old(src).buf(), old(src).pos()) {
                ErrorKind::Invalid
            } else {
                ErrorKind::Incomplete
            },
    {
        let tag = get_u8(src)?;
        if tag == TAG_DB_SYNC {
            skip(src, 4)
        } else if tag == TAG_YES {
            Ok(())
        } else if tag == TAG_NO {
            Ok(())
        } else if tag == TAG_DONE {
            Ok(())
        } else if tag == TAG_INITIATOR_GLOBAL {
            // hash (32) and last modified (8), then peer and path lines
            skip(src, 40)?;
            get_line(src)?;
            get_line(src)?;
            Ok(())
        } else if tag == TAG_REQUEST_FILE {
            skip(src, 4)?;
            get_line(src)?;
            Ok(())
        } else if tag == TAG_FILE {
            if src.remaining() < 8 {
                return Err(Error::Incomplete);
            }
            let size = src.get_i64_le();
            if size < 0 || size as u64 > usize::MAX as u64 {
                return Err(Error::Invalid);
            }
            skip(src, size as usize)
        } else {
            Err(Error::Invalid)
        }
    }

    /// Reads the frame at the cursor.
    ///
    /// The cursor ends after the last field read; a file frame leaves it
    /// before the data.
    pub fn parse(src: &mut Cursor<'_>) -> (res: Result<Frame, Error>)
        requires
            parse_defined(old(src).buf(), old(src).pos()),
        ensures
            final(src).buf() == old(src).buf(),
            parse_result_view(res) == parse_outcome(old(src).buf(), old(src).pos()).0,
            final(src).pos() == parse_outcome(old(src).buf(), old(src).pos()).1,
    {
        let tag = get_u8(src)?;
        if tag == TAG_DB_SYNC {
            let folder_id = src.get_u32_le();
            Ok(Frame::DbSync { folder_id })
        } else if tag == TAG_YES {
            Ok(Frame::Yes)
        } else if tag == TAG_NO {
            Ok(Frame::No)
        } else if tag == TAG_DONE {
            Ok(Frame::Done)
        } else if tag == TAG_INITIATOR_GLOBAL {
            let ghost p = src.pos();
            let global_hash = bytes_copy_from_slice(slice_subrange(src.chunk(), 0, HASH_LEN));
            assert(bytes_content(global_hash) == src.buf().subrange(p, p + 32));
            skip(src, HASH_LEN)?;
            let global_last_modified = src.get_i64_le();
            let global_peer = get_text_line(src)?;
            let path = get_text_line(src)?;
            Ok(Frame::InitiatorGlobal { global_hash, global_last_modified, global_peer, path })
        } else if tag == TAG_REQUEST_FILE {
            let folder_id = src.get_u32_le();
            let path = get_text_line(src)?;
            Ok(Frame::RequestFile { folder_id, path })
        } else {
            let size = src.get_i64_le();
            let ghost p = src.pos();
            let avail = src.remaining();
            assert(size <= avail);
            let data = bytes_copy_from_slice(slice_subrange(src.chunk(), 0, size as usize));
            assert(bytes_content(data) == src.buf().subrange(p, p + size));
            Ok(Frame::File { size, data })
        }
    }
}

} // verus!

verus! {

// ---------------------------------------------------------------------------
// Writing frames
// ---------------------------------------------------------------------------

/// The bytes that encode `f` on the wire.
pub open spec fn encode_view(f: FrameView) -> Seq<u8> {
    match f {
        FrameView::DbSync { folder_id } => seq![TAG_DB_SYNC] + u32_le_bytes(folder_id),
        FrameView::Yes => seq![TAG_YES],
        FrameView::No => seq![TAG_NO],
        FrameView::Done => seq![TAG_DONE],
        FrameView::InitiatorGlobal { global_hash, global_last_modified, global_peer, path } => seq![
            TAG_INITIATOR_GLOBAL,
        ] + global_hash + i64_le_bytes(global_last_modified) + encode_utf8(global_peer) + seq![
            CR,
            LF,
        ] + encode_utf8(path) + seq![CR, LF],
        FrameView::RequestFile { folder_id, path } => seq![TAG_REQUEST_FILE] + u32_le_bytes(
            folder_id,
        ) + encode_utf8(path) + seq![CR, LF],
        FrameView::File { size, data } => seq![TAG_FILE] + i64_le_bytes(size) + data,
    }
}

/// `f` can be written and read back: the hash has 32 bytes, no text field
/// holds `\r\n`, and a file's size is the length of its data.
pub open spec fn frame_wf(f: FrameView) -> bool {
    match f {
        FrameView::InitiatorGlobal { global_hash, global_peer, path, .. } => {
            &&& global_hash.len() == HASH_LEN
            &&& has_no_crlf(encode_utf8(global_peer))
            &&& has_no_crlf(encode_utf8(path))
        },
        FrameView::RequestFile { path, .. } => has_no_crlf(encode_utf8(path)),
        FrameView::File { size, data } => size == data.len(),
        _ => true,
    }
}

/// Appends `src` to `out`.
fn append_bytes(out: &mut Vec<u8>, src: &[u8])
    ensures
        final(out)@ == old(out)@ + src@,
{
    let mut i: usize = 0;
    while i < src.len()
        invariant
            i <= src@.len(),
            out@ == old(out)@ + src@.subrange(0, i as int),
        decreases src@.len() - i,
    {
        out.push(src[i]);
        i = i + 1;
        assert(src@.subrange(0, i as int) == src@.subrange(0, (i - 1) as int).push(src@[i - 1]));
    }
    assert(src@.subrange(0, src@.len() as int) == src@);
}

/// Appends the four little-endian bytes of `v` to `out`.
fn append_u32_le(out: &mut Vec<u8>, v: u32)
    ensures
        final(out)@ == old(out)@ + u32_le_bytes(v),
{
    out.push((v & 0xff) as u8);
    out.push(((v >> 8u32) & 0xff) as u8);
    out.push(((v >> 16u32) & 0xff) as u8);
    out.push(((v >> 24u32) & 0xff) as u8);
    assert(final(out)@ == old(out)@ + u32_le_bytes(v));
}

/// Appends the eight little-endian two's complement bytes of `v` to `out`.
fn append_i64_le(out: &mut Vec<u8>, v: i64)
    ensures
        final(out)@ == old(out)@ + i64_le_bytes(v),
{
    let u = v as u64;
    out.push((u & 0xff) as u8);
    out.push(((u >> 8u64) & 0xff) as u8);
    out.push(((u >> 16u64) & 0xff) as u8);
    out.push(((u >> 24u64) & 0xff) as u8);
    out.push(((u >> 32u64) & 0xff) as u8);
    out.push(((u >> 40u64) & 0xff) as u8);
    out.push(((u >> 48u64) & 0xff) as u8);
    out.push(((u >> 56u64) & 0xff) as u8);
    assert(final(out)@ == old(out)@ + i64_le_bytes(v));
}

impl Frame {
    /// The bytes that carry this frame on the wire.
    pub fn encode(&self) -> (out: Vec<u8>)
        ensures
            out@ == encode_view(self@),
    {
        let mut out: Vec<u8> = Vec::new();
        match self {
            Frame::DbSync { folder_id } => {
                out.push(TAG_DB_SYNC);
                append_u32_le(&mut out, *folder_id);
            },
            Frame::Yes => {
                out.push(TAG_YES);
            },
            Frame::No => {
                out.push(TAG_NO);
            },
            Frame::Done => {
                out.push(TAG_DONE);
            },
            Frame::InitiatorGlobal { global_hash, global_last_modified, global_peer, path } => {
                out.push(TAG_INITIATOR_GLOBAL);
                append_bytes(&mut out, bytes_as_slice(global_hash));
                append_i64_le(&mut out, *global_last_modified);
                append_bytes(&mut out, global_peer.as_str().as_bytes());
                out.push(CR);
                out.push(LF);
                append_bytes(&mut out, path.as_str().as_bytes());
                out.push(CR);
                out.push(LF);
            },
            Frame::RequestFile { folder_id, path } => {
                out.push(TAG_REQUEST_FILE);
                append_u32_le(&mut out, *folder_id);
                append_bytes(&mut out, path.as_str().as_bytes());
                out.push(CR);
                out.push(LF);
            },
            Frame::File { size, data } => {
                out.push(TAG_FILE);
                append_i64_le(&mut out, *size);
                append_bytes(&mut out, bytes_as_slice(data));
            },
        }
        out
    }
}

} // verus!

verus! {

// ---------------------------------------------------------------------------
// Laws
// ---------------------------------------------------------------------------

proof fn lemma_le_u32_bytes(buf: Seq<u8>, at: int, v: u32)
    requires
        0 <= at,
        at + 4 <= buf.len(),
        buf.subrange(at, at + 4) == u32_le_bytes(v),
    ensures
        le_u32(buf, at) == v,
{
    let s = buf.subrange(at, at + 4);
    assert(buf[at] == s[0] && buf[at + 1] == s[1] && buf[at + 2] == s[2] && buf[at + 3] == s[3]);
    let b0 = buf[at];
    let b1 = buf[at + 1];
    let b2 = buf[at + 2];
    let b3 = buf[at + 3];
    assert(((b0 as u32) | ((b1 as u32) << 8u32) | ((b2 as u32) << 16u32) | ((b3 as u32) << 24u32))
        == v) by (bit_vector)
        requires
            b0 == (v & 0xff) as u8,
            b1 == ((v >> 8u32) & 0xff) as u8,
            b2 == ((v >> 16u32) & 0xff) as u8,
            b3 == ((v >> 24u32) & 0xff) as u8,
    ;
}

proof fn lemma_le_i64_bytes(buf: Seq<u8>, at: int, v: i64)
    requires
        0 <= at,
        at + 8 <= buf.len(),
        buf.subrange(at, at + 8) == i64_le_bytes(v),
    ensures
        le_i64(buf, at) == v,
{
    let s = buf.subrange(at, at + 8);
    assert(buf[at] == s[0] && buf[at + 1] == s[1] && buf[at + 2] == s[2] && buf[at + 3] == s[3]);
    assert(buf[at + 4] == s[4] && buf[at + 5] == s[5] && buf[at + 6] == s[6] && buf[at + 7]
        == s[7]);
    let u = v as u64;
    let b0 = buf[at];
    let b1 = buf[at + 1];
    let b2 = buf[at + 2];
    let b3 = buf[at + 3];
    let b4 = buf[at + 4];
    let b5 = buf[at + 5];
    let b6 = buf[at + 6];
    let b7 = buf[at + 7];
    assert(((b0 as u64) | ((b1 as u64) << 8u64) | ((b2 as u64) << 16u64) | ((b3 as u64) << 24u64)
        | ((b4 as u64) << 32u64) | ((b5 as u64) << 40u64) | ((b6 as u64) << 48u64) | ((b7 as u64)
        << 56u64)) == u) by (bit_vector)
        requires
            b0 == (u & 0xff) as u8,
            b1 == ((u >> 8u64) & 0xff) as u8,
            b2 == ((u >> 16u64) & 0xff) as u8,
            b3 == ((u >> 24u64) & 0xff) as u8,
            b4 == ((u >> 32u64) & 0xff) as u8,
            b5 == ((u >> 40u64) & 0xff) as u8,
            b6 == ((u >> 48u64) & 0xff) as u8,
            b7 == ((u >> 56u64) & 0xff) as u8,
    ;
    assert((u as i64) == v) by (bit_vector)
        requires
            u == v as u64,
    ;
}

proof fn lemma_text_line(buf: Seq<u8>, start: int, text: Seq<char>)
    requires
        0 <= start,
        start + encode_utf8(text).len() + 2 <= buf.len(),
        buf.subrange(start, start + encode_utf8(text).len()) == encode_utf8(text),
        buf[start + encode_utf8(text).len()] == CR,
        buf[start + encode_utf8(text).len() + 1] == LF,
        has_no_crlf(encode_utf8(text)),
    ensures
        first_crlf(buf, start) == Some(start + encode_utf8(text).len()),
        line_outcome(buf, start) == (true, start + encode_utf8(text).len() + 2),
        text_line_outcome(buf, start) == (
            Ok::<Seq<char>, ErrorKind>(text),
            start + encode_utf8(text).len() + 2,
        ),
{
    let bytes = encode_utf8(text);
    let n = bytes.len() as int;
    assert forall|k: int| start <= k < start + n implies !#[trigger] is_crlf_at(buf, k) by {
        if k + 1 < start + n {
            assert(buf[k] == bytes[k - start] && buf[k + 1] == bytes[k + 1 - start]);
            assert(!is_crlf_at(bytes, k - start));
        }
    }
    lemma_first_crlf_found(buf, start, start + n);
    vstd::utf8::encode_utf8_valid_utf8(text);
    vstd::utf8::encode_utf8_decode_utf8(text);
}

/// Where reading stops after parsing the encoding of `f`: after the size for
/// a file, at the end of the frame otherwise.
pub open spec fn parse_end(f: FrameView) -> int {
    match f {
        FrameView::File { .. } => 9,
        _ => encode_view(f).len() as int,
    }
}

/// What is written is read back: for a well-formed frame `f` followed by
/// any further bytes, `check` finds exactly the encoding of `f` and `parse`
/// returns `f`, neither of them panicking.
pub proof fn lemma_encode_then_read(f: FrameView, rest: Seq<u8>)
    requires
        frame_wf(f),
        encode_view(f).len() + rest.len() <= usize::MAX,
    ensures
        !check_invalid(encode_view(f) + rest, 0),
        check_outcome(encode_view(f) + rest, 0) == (true, encode_view(f).len() as int),
        parse_defined(encode_view(f) + rest, 0),
        parse_outcome(encode_view(f) + rest, 0) == (
            Ok::<FrameView, ErrorKind>(f),
            parse_end(f),
        ),
{
    let enc = encode_view(f);
    let buf = enc + rest;
    assert(buf.subrange(0, enc.len() as int) == enc);
    match f {
        FrameView::DbSync { folder_id } => {
            assert(buf.subrange(1, 5) == u32_le_bytes(folder_id));
            lemma_le_u32_bytes(buf, 1, folder_id);
        },
        FrameView::Yes => {},
        FrameView::No => {},
        FrameView::Done => {},
        FrameView::InitiatorGlobal { global_hash, global_last_modified, global_peer, path } => {
            let peer_bytes = encode_utf8(global_peer);
            let path_bytes = encode_utf8(path);
            let a: int = 41 + peer_bytes.len() as int;
            let m: int = path_bytes.len() as int;
            assert(buf.subrange(1, 33) == global_hash);
            assert(buf.subrange(33, 41) == i64_le_bytes(global_last_modified));
            lemma_le_i64_bytes(buf, 33, global_last_modified);
            assert(buf.subrange(41, a) == peer_bytes);
            assert(buf[a] == CR && buf[a + 1] == LF);
            lemma_text_line(buf, 41, global_peer);
            assert(buf.subrange(a + 2, a + 2 + m) == path_bytes);
            assert(buf[a + 2 + m] == CR && buf[a + 3 + m] == LF);
            lemma_text_line(buf, a + 2, path);
        },
        FrameView::RequestFile { folder_id, path } => {
            let path_bytes = encode_utf8(path);
            let m: int = path_bytes.len() as int;
            assert(buf.subrange(1, 5) == u32_le_bytes(folder_id));
            lemma_le_u32_bytes(buf, 1, folder_id);
            assert(buf.subrange(5, 5 + m) == path_bytes);
            assert(buf[5 + m] == CR && buf[6 + m] == LF);
            lemma_text_line(buf, 5, path);
        },
        FrameView::File { size, data } => {
            assert(buf.subrange(1, 9) == i64_le_bytes(size));
            lemma_le_i64_bytes(buf, 1, size);
            assert(buf.subrange(9, 9 + size) == data);
        },
    }
}

} // verus!

verus! {

/// A successful check guarantees that parsing at the same place does not
/// panic and does not run out of data; a frame parsed there ends where the
/// check stopped, except that parsing leaves a file's data in place.
pub proof fn lemma_check_then_parse(buf: Seq<u8>, pos: int)
    requires
        0 <= pos,
        check_outcome(buf, pos).0,
    ensures
        pos < check_outcome(buf, pos).1 <= buf.len(),
        parse_defined(buf, pos),
        !(parse_outcome(buf, pos).0 matches Err(ErrorKind::Incomplete)),
        buf[pos] != TAG_FILE && parse_outcome(buf, pos).0 is Ok ==> parse_outcome(buf, pos).1
            == check_outcome(buf, pos).1,
        buf[pos] == TAG_FILE ==> (parse_outcome(buf, pos).0 matches Ok(FrameView::File { size, data })
            && data == buf.subrange(pos + 9, check_outcome(buf, pos).1)),
{
    let tag = buf[pos];
    let p = pos + 1;
    if tag == TAG_INITIATOR_GLOBAL {
        let i = first_crlf(buf, p + 40)->0;
        lemma_first_crlf_bounds(buf, p + 40);
        lemma_first_crlf_bounds(buf, i + 2);
    } else if tag == TAG_REQUEST_FILE {
        lemma_first_crlf_bounds(buf, p + 4);
    }
}

proof fn lemma_first_crlf_bounds(buf: Seq<u8>, start: int)
    ensures
        first_crlf(buf, start) matches Some(i) ==> start <= i && is_crlf_at(buf, i),
    decreases buf.len() - start,
{
    if !(start < 0 || start + 1 >= buf.len()) && !is_crlf_at(buf, start) {
        lemma_first_crlf_bounds(buf, start + 1);
    }
}

} // verus!
