//! Messages on a socket: a length of four bytes, the most significant first, then the message.

use vstd::prelude::*;

verus! {

/// The longest message a reader takes: 64 MiB.
pub const MAX_FRAME: usize = 67_108_864;

/// Why a message cannot be framed, or a frame cannot be read.
#[derive(Clone, Copy, PartialEq, Eq, Debug, Structural)]
pub enum FrameError {
    /// The message is longer than four bytes can say.
    TooLarge,
    /// The length is over [`MAX_FRAME`].
    OverLimit,
}

impl FrameError {
    /// The failure as the operator reads it.
    pub fn text(&self) -> (r: &'static str)
        ensures
            self is TooLarge ==> r@ == "frame too large"@,
            self is OverLimit ==> r@ == "framed message exceeds the size limit"@,
    {
        match self {
            FrameError::TooLarge => "frame too large",
            FrameError::OverLimit => "framed message exceeds the size limit",
        }
    }
}

/// The number four bytes say, the most significant first.
pub open spec fn number_in(bytes: Seq<u8>) -> nat {
    (bytes[0] * 0x100_0000 + bytes[1] * 0x1_0000 + bytes[2] * 0x100 + bytes[3]) as nat
}

/// The four bytes before a message of `len` bytes. Fails exactly when they cannot say so many.
pub fn frame_header(len: usize) -> (r: Result<[u8; 4], FrameError>)
    ensures
        match r {
            Ok(header) => len <= u32::MAX && number_in(header@) == len,
            Err(error) => len > u32::MAX && error is TooLarge,
        },
{
    if len as u64 > u32::MAX as u64 {
        return Err(FrameError::TooLarge);
    }
    let len: u32 = len as u32;
    let a: u32 = len / 0x100_0000;
    let b: u32 = len / 0x1_0000 % 0x100;
    let c: u32 = len / 0x100 % 0x100;
    let d: u32 = len % 0x100;
    assert(a * 0x100_0000 + b * 0x1_0000 + c * 0x100 + d == len && a < 0x100);
    Ok([a as u8, b as u8, c as u8, d as u8])
}

/// Whether `frame` is the message `payload` with its length before it.
pub open spec fn frames(payload: Seq<u8>, frame: Seq<u8>) -> bool {
    &&& frame.len() == payload.len() + 4
    &&& number_in(frame.take(4)) == payload.len()
    &&& frame.skip(4) == payload
}

/// The frame of a message. Fails exactly when the length does not fit its four bytes.
pub fn write_frame(payload: &Vec<u8>) -> (r: Result<Vec<u8>, FrameError>)
    ensures
        match r {
            Ok(frame) => payload@.len() <= u32::MAX && frames(payload@, frame@),
            Err(error) => payload@.len() > u32::MAX && error is TooLarge,
        },
{
    let header = match frame_header(payload.len()) {
        Ok(header) => header,
        Err(error) => {
            return Err(error);
        },
    };
    let mut frame: Vec<u8> = Vec::new();
    frame.push(header[0]);
    frame.push(header[1]);
    frame.push(header[2]);
    frame.push(header[3]);
    assert(frame@ =~= header@);
    let mut i: usize = 0;
    while i < payload.len()
        invariant
            i <= payload.len(),
            frame@ == header@ + payload@.take(i as int),
        decreases payload.len() - i,
    {
        frame.push(payload[i]);
        assert(payload@.take(i + 1) =~= payload@.take(i as int).push(payload[i as int]));
        i += 1;
    }
    assert(payload@.take(i as int) =~= payload@);
    assert(frame@.take(4) =~= header@);
    assert(frame@.skip(4) =~= payload@);
    Ok(frame)
}

/// The length of the message after `header`. Fails exactly when it is over the limit.
pub fn read_length(header: &[u8; 4]) -> (r: Result<usize, FrameError>)
    ensures
        match r {
            Ok(len) => len == number_in(header@) && len <= MAX_FRAME,
            Err(error) => number_in(header@) > MAX_FRAME && error is OverLimit,
        },
{
    let len: u32 = header[0] as u32 * 0x100_0000 + header[1] as u32 * 0x1_0000 + header[2] as u32
        * 0x100 + header[3] as u32;
    if len as usize > MAX_FRAME {
        return Err(FrameError::OverLimit);
    }
    Ok(len as usize)
}

/// Whether a connection is served: only that of a peer known to be the server's own user.
pub fn serves_peer(peer: Option<u32>, own: u32) -> (r: bool)
    ensures
        r == (peer == Some(own)),
{
    match peer {
        Some(user) => user == own,
        None => false,
    }
}

// ---------------------------------------------------------------------------
// Laws.
// ---------------------------------------------------------------------------

/// A message determines its frame, and a frame its message.
pub proof fn law_frames_and_messages_correspond(
    payload: Seq<u8>,
    other: Seq<u8>,
    frame: Seq<u8>,
    second: Seq<u8>,
)
    requires
        frames(payload, frame),
    ensures
        frames(other, frame) ==> other == payload,
        frames(payload, second) ==> second == frame,
{
    if frames(payload, second) {
        let a = frame.take(4);
        let b = second.take(4);
        assert(number_in(a) == number_in(b));
        assert(a[0] == b[0] && a[1] == b[1] && a[2] == b[2] && a[3] == b[3]) by {
            lemma_number_determines(a, b);
        }
        assert(a =~= b);
        assert(frame =~= a + frame.skip(4));
        assert(second =~= b + second.skip(4));
    }
}

proof fn lemma_number_determines(a: Seq<u8>, b: Seq<u8>)
    requires
        number_in(a) == number_in(b),
    ensures
        a[0] == b[0] && a[1] == b[1] && a[2] == b[2] && a[3] == b[3],
{
    let low_a: int = a[1] * 0x1_0000 + a[2] * 0x100 + a[3];
    let low_b: int = b[1] * 0x1_0000 + b[2] * 0x100 + b[3];
    assert(0 <= low_a < 0x100_0000 && 0 <= low_b < 0x100_0000);
    assert(a[0] == b[0]);
    assert(a[1] == b[1]);
}

/// A reader gets back the length of every message it takes, and takes every message of at most
/// [`MAX_FRAME`] bytes. (A longer one can be written, and is refused by its reader.)
pub proof fn law_a_frame_is_read_back(payload: Seq<u8>, frame: Seq<u8>)
    requires
        frames(payload, frame),
    ensures
        number_in(frame.take(4)) <= MAX_FRAME <==> payload.len() <= MAX_FRAME,
        frame.skip(4).take(number_in(frame.take(4)) as int) == payload,
{
    assert(payload.take(payload.len() as int) =~= payload);
}

/// The four bytes before a message say its length, the most significant first: each is worth
/// as much as two hundred and fifty-six of the next.
pub proof fn law_a_header_says_the_length(len: usize, r: Result<[u8; 4], FrameError>)
    requires
        call_ensures(frame_header, (len,), r),
    ensures
        r is Ok <==> len <= u32::MAX,
        r matches Ok(header) ==> len == ((header@[0] * 256 + header@[1]) * 256 + header@[2]) * 256
            + header@[3],
        r matches Err(error) ==> error is TooLarge,
{
}

/// A message is framed exactly if its length can be said; a reader that takes the length out of
/// the first four bytes of the frame, and so many bytes after them, has the message, and it
/// takes every one that is not over the limit.
pub proof fn law_a_message_is_framed_and_read_back(
    payload: &Vec<u8>,
    r: Result<Vec<u8>, FrameError>,
    header: &[u8; 4],
    length: Result<usize, FrameError>,
)
    requires
        call_ensures(write_frame, (payload,), r),
        r matches Ok(frame) ==> header@ == frame@.take(4),
        call_ensures(read_length, (header,), length),
    ensures
        r is Ok <==> payload@.len() <= u32::MAX,
        r matches Ok(frame) ==> {
            &&& frame@.len() == payload@.len() + 4
            &&& frame@.skip(4) == payload@
            &&& length is Ok <==> payload@.len() <= 64 * 1024 * 1024
            &&& length matches Ok(len) ==> frame@.skip(4).take(len as int) == payload@
            &&& length matches Err(error) ==> error is OverLimit
        },
{
    assert(payload@.take(payload@.len() as int) =~= payload@);
}

/// The length a header says is read as it is said, the most significant byte first, unless it
/// is over the limit.
pub proof fn law_a_length_is_read_as_it_is_said(
    header: &[u8; 4],
    r: Result<usize, FrameError>,
)
    requires
        call_ensures(read_length, (header,), r),
    ensures
        ({
            let said = ((header@[0] * 256 + header@[1]) * 256 + header@[2]) * 256 + header@[3];
            match r {
                Ok(len) => len == said && said <= 64 * 1024 * 1024,
                Err(error) => error is OverLimit && said > 64 * 1024 * 1024,
            }
        }),
{
}

/// Only a peer that is known to be the server's own user is served.
pub proof fn law_only_the_own_user_is_served(peer: Option<u32>, own: u32, r: bool)
    requires
        call_ensures(serves_peer, (peer, own), r),
    ensures
        peer is None ==> !r,
        peer matches Some(user) ==> (r <==> user == own),
{
}

} // verus!
