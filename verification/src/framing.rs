//! Framing of the byte stream: each envelope travels as one line.
//!
//! A frame is the bytes of one encoded envelope, followed by the delimiter.
//! The payload itself holds no delimiter, so a stream of frames is cut in
//! exactly one way, however the network splits or joins the bytes.

use vstd::prelude::*;

verus! {

/// The byte that ends a frame: a line feed.
pub const DELIMITER: u8 = 10;

/// Whether `at` is the place of the first delimiter in `bytes`.
pub open spec fn is_frame_end(bytes: Seq<u8>, at: int) -> bool {
    &&& 0 <= at < bytes.len()
    &&& bytes[at] == DELIMITER
    &&& forall|j: int| 0 <= j < at ==> bytes[j] != DELIMITER
}

/// Whether `bytes` start with a complete frame.
pub open spec fn has_frame(bytes: Seq<u8>) -> bool {
    bytes.contains(DELIMITER)
}

/// The place of the first delimiter in `bytes`.
pub open spec fn frame_end(bytes: Seq<u8>) -> int {
    choose|at: int| is_frame_end(bytes, at)
}

/// The payload of the first frame in `bytes`.
pub open spec fn first_frame(bytes: Seq<u8>) -> Seq<u8> {
    bytes.take(frame_end(bytes))
}

/// What follows the first frame in `bytes`.
pub open spec fn after_first_frame(bytes: Seq<u8>) -> Seq<u8> {
    bytes.skip(frame_end(bytes) + 1)
}

/// The frame that carries `payload`.
pub open spec fn framed(payload: Seq<u8>) -> Seq<u8> {
    payload.push(DELIMITER)
}

/// The first delimiter has one place only.
pub proof fn lemma_frame_end_unique(bytes: Seq<u8>, at: int)
    requires
        is_frame_end(bytes, at),
    ensures
        has_frame(bytes),
        frame_end(bytes) == at,
{
    let other = frame_end(bytes);
    assert(is_frame_end(bytes, other));
    if other < at {
        assert(bytes[other] != DELIMITER);
    } else if at < other {
        assert(bytes[at] != DELIMITER);
    }
}

/// Bytes that start with a complete frame have a first delimiter.
pub proof fn lemma_has_frame_end(bytes: Seq<u8>)
    requires
        has_frame(bytes),
    ensures
        is_frame_end(bytes, frame_end(bytes)),
    decreases bytes.len(),
{
    let some = choose|i: int| 0 <= i < bytes.len() && bytes[i] == DELIMITER;
    if exists|j: int| 0 <= j < some && bytes[j] == DELIMITER {
        let j = choose|j: int| 0 <= j < some && bytes[j] == DELIMITER;
        let shorter = bytes.take(some);
        assert(shorter[j] == DELIMITER);
        lemma_has_frame_end(shorter);
        let at = frame_end(shorter);
        assert(is_frame_end(bytes, at)) by {
            assert(bytes[at] == shorter[at]);
            assert forall|k: int| 0 <= k < at implies bytes[k] != DELIMITER by {
                assert(bytes[k] == shorter[k]);
            }
        }
    } else {
        assert(is_frame_end(bytes, some));
    }
}

/// A buffer of received bytes from which complete frames are taken, first
/// come, first out.
#[derive(Debug)]
pub struct FrameBuffer {
    pending: Vec<u8>,
}

impl View for FrameBuffer {
    type V = Seq<u8>;

    /// The bytes received and not yet taken out.
    closed spec fn view(&self) -> Seq<u8> {
        self.pending@
    }
}

/// The place of the first delimiter in `bytes`, if there is one.
pub fn find_delimiter(bytes: &Vec<u8>) -> (found: Option<usize>)
    ensures
        match found {
            Some(at) => is_frame_end(bytes@, at as int),
            None => !has_frame(bytes@),
        },
{
    let mut i: usize = 0;
    while i < bytes.len()
        invariant
            i <= bytes.len(),
            forall|j: int| 0 <= j < i ==> bytes@[j] != DELIMITER,
        decreases bytes.len() - i,
    {
        if bytes[i] == DELIMITER {
            return Some(i);
        }
        i += 1;
    }
    None
}

/// The frame that carries `payload`, or `None` where the payload holds a
/// delimiter and so cannot travel as one frame.
pub fn encode_frame(payload: Vec<u8>) -> (frame: Option<Vec<u8>>)
    ensures
        frame is Some <==> !has_frame(payload@),
        frame matches Some(bytes) ==> bytes@ == framed(payload@),
{
    match find_delimiter(&payload) {
        Some(_) => None,
        None => {
            let mut bytes = payload;
            bytes.push(DELIMITER);
            Some(bytes)
        },
    }
}

impl FrameBuffer {
    /// An empty buffer.
    pub fn new() -> (buffer: Self)
        ensures
            buffer@ == Seq::<u8>::empty(),
    {
        FrameBuffer { pending: Vec::new() }
    }

    /// Appends received bytes.
    pub fn push(&mut self, chunk: Vec<u8>)
        ensures
            final(self)@ == old(self)@ + chunk@,
    {
        let mut chunk = chunk;
        self.pending.append(&mut chunk);
    }

    /// Takes the first complete frame out of the buffer and returns its
    /// payload. Without a complete frame the buffer stays as it is.
    pub fn pop_frame(&mut self) -> (frame: Option<Vec<u8>>)
        ensures
            frame is Some <==> has_frame(old(self)@),
            frame matches Some(payload) ==> payload@ == first_frame(old(self)@) && final(self)@
                == after_first_frame(old(self)@),
            frame is None ==> final(self)@ == old(self)@,
    {
        match find_delimiter(&self.pending) {
            Some(at) => {
                proof {
                    lemma_frame_end_unique(self.pending@, at as int);
                }
                assert(at < self.pending.len());
                let mut rest = self.pending.split_off(at + 1);
                std::mem::swap(&mut rest, &mut self.pending);
                let mut payload = rest;
                payload.pop();
                assert(payload@ =~= first_frame(old(self)@));
                assert(self@ =~= after_first_frame(old(self)@));
                Some(payload)
            },
            None => None,
        }
    }

    /// Whether no byte is waiting.
    pub fn is_empty(&self) -> (empty: bool)
        ensures
            empty == (self@.len() == 0),
    {
        self.pending.len() == 0
    }
}

/// Taking the first frame out loses and adds nothing: the payload, the
/// delimiter and the rest make up the bytes again, and the payload holds no
/// delimiter.
pub proof fn lemma_first_frame_splits(bytes: Seq<u8>)
    requires
        has_frame(bytes),
    ensures
        framed(first_frame(bytes)) + after_first_frame(bytes) == bytes,
        !has_frame(first_frame(bytes)),
{
    lemma_has_frame_end(bytes);
    let at = frame_end(bytes);
    assert(framed(first_frame(bytes)) + after_first_frame(bytes) =~= bytes);
    let payload = first_frame(bytes);
    if payload.contains(DELIMITER) {
        let j = choose|j: int| 0 <= j < payload.len() && payload[j] == DELIMITER;
        assert(bytes[j] == payload[j]);
    }
}

/// A frame is read back as it was written, whatever follows it: the first
/// frame of an encoded payload and more bytes is that payload, and the bytes
/// after it are the rest.
pub proof fn lemma_frame_round_trip(payload: Seq<u8>, rest: Seq<u8>)
    requires
        !has_frame(payload),
    ensures
        has_frame(framed(payload) + rest),
        first_frame(framed(payload) + rest) == payload,
        after_first_frame(framed(payload) + rest) == rest,
{
    let bytes = framed(payload) + rest;
    let at = payload.len() as int;
    assert(bytes[at] == DELIMITER);
    assert forall|j: int| 0 <= j < at implies bytes[j] != DELIMITER by {
        assert(bytes[j] == payload[j]);
        assert(payload.contains(payload[j]));
    }
    assert(is_frame_end(bytes, at));
    lemma_frame_end_unique(bytes, at);
    assert(first_frame(bytes) =~= payload);
    assert(after_first_frame(bytes) =~= rest);
}

/// Bytes that arrive later do not change the first frame: a frame that is
/// complete is cut the same way whether more bytes have arrived or not.
pub proof fn lemma_first_frame_stable(bytes: Seq<u8>, more: Seq<u8>)
    requires
        has_frame(bytes),
    ensures
        has_frame(bytes + more),
        first_frame(bytes + more) == first_frame(bytes),
        after_first_frame(bytes + more) == after_first_frame(bytes) + more,
{
    lemma_first_frame_splits(bytes);
    let payload = first_frame(bytes);
    let rest = after_first_frame(bytes);
    assert(bytes + more =~= framed(payload) + (rest + more));
    lemma_frame_round_trip(payload, rest + more);
}

} // verus!
