//! Reassembly of messages from a byte stream.
//!
//! A message travels as one JSON value. A connection delivers its bytes in
//! pieces of any size, so a value may arrive split over several reads, and
//! one read may hold several values. The buffer here collects the bytes of
//! one connection and hands out the bytes of each value once it is whole.

use vstd::prelude::*;

verus! {

/// What stands at the front of a byte buffer that is read as JSON.
#[derive(Debug, Clone, Copy, PartialEq, Eq, Structural)]
pub enum Scan {
    /// No value begins in the buffer: it is empty or holds white space only.
    Blank,
    /// A whole value stands at the front and ends before this offset.
    Complete(usize),
    /// The buffer ends in the middle of a value.
    Partial,
    /// The bytes at the front are not the beginning of any value.
    Malformed,
}

/// The answer of the JSON reader to the question what stands at the front
/// of `bytes`.
pub uninterp spec fn first_value(bytes: Seq<u8>) -> Scan;

/// Asks `serde_json` what stands at the front of `bytes`.
///
/// The body runs a `serde_json::StreamDeserializer` over the bytes for one
/// step, reading the value without building it. Where the step yields a
/// value the answer carries `byte_offset()`, the number of bytes read up to
/// the value's end; where it fails, `Error::is_eof` tells a value cut short
/// from bytes that are no JSON. The contract claims only that the answer
/// depends on the bytes alone; `first_value` is the name of that answer.
#[verifier::external_body]
fn scan(bytes: &Vec<u8>) -> (found: Scan)
    ensures
        found == first_value(bytes@),
{
    let reader = serde_json::Deserializer::from_slice(bytes.as_slice());
    let mut values = reader.into_iter::<serde::de::IgnoredAny>();
    match values.next() {
        None => Scan::Blank,
        Some(Ok(_)) => Scan::Complete(values.byte_offset()),
        Some(Err(e)) => if e.is_eof() {
            Scan::Partial
        } else {
            Scan::Malformed
        },
    }
}

/// What one look at the buffer yields, as contracts see it.
pub ghost enum StepView {
    /// The bytes of one whole value.
    Frame(Seq<u8>),
    /// Nothing yet: more bytes have to arrive.
    NeedMore,
    /// The buffer held this many bytes that are no JSON; they are gone.
    Dropped(nat),
}

/// The buffer and the yield after one look at `pending`, given the reader's
/// answer `found`.
///
/// A whole value leaves the buffer as a frame. A value cut short stays
/// until more bytes arrive. White space is discarded. Bytes that are no
/// JSON offer no place to resume, so the whole buffer is dropped; an answer
/// that points outside the buffer, or nowhere, is treated the same way.
pub open spec fn step(pending: Seq<u8>, found: Scan) -> (Seq<u8>, StepView) {
    match found {
        Scan::Complete(end) => if 0 < end <= pending.len() {
            (pending.skip(end as int), StepView::Frame(pending.take(end as int)))
        } else {
            (Seq::empty(), StepView::Dropped(pending.len()))
        },
        Scan::Partial => (pending, StepView::NeedMore),
        Scan::Blank => (Seq::empty(), StepView::NeedMore),
        Scan::Malformed => (Seq::empty(), StepView::Dropped(pending.len())),
    }
}

/// What one look at the buffer yields.
#[derive(Debug, PartialEq, Eq)]
pub enum Step {
    /// The bytes of one whole value.
    Frame(Vec<u8>),
    /// Nothing yet: more bytes have to arrive.
    NeedMore,
    /// The buffer held this many bytes that are no JSON; they are gone.
    Dropped(usize),
}

impl View for Step {
    type V = StepView;

    open spec fn view(&self) -> StepView {
        match self {
            Step::Frame(bytes) => StepView::Frame(bytes@),
            Step::NeedMore => StepView::NeedMore,
            Step::Dropped(n) => StepView::Dropped(*n as nat),
        }
    }
}

/// All that a buffer yields before it has to wait for more bytes.
pub ghost struct Drained {
    /// The frames, in the order in which their values stood in the buffer.
    pub frames: Seq<Seq<u8>>,
    /// The bytes that stay in the buffer.
    pub rest: Seq<u8>,
    /// The number of bytes dropped as no JSON.
    pub dropped: nat,
}

/// Looks at `pending` again and again, as `step` says, until a look yields
/// no frame.
pub open spec fn drain(pending: Seq<u8>) -> Drained
    decreases pending.len(),
{
    let (rest, yielded) = step(pending, first_value(pending));
    match yielded {
        StepView::Frame(frame) => {
            let later = drain(rest);
            Drained { frames: seq![frame] + later.frames, ..later }
        },
        StepView::NeedMore => Drained { frames: Seq::empty(), rest, dropped: 0 },
        StepView::Dropped(n) => Drained { frames: Seq::empty(), rest, dropped: n },
    }
}

/// Whatever the reader answers, the frames are cut from the front of the
/// buffer one after the other, without a gap and each at least one byte
/// long. Bytes that stay in the buffer are all the bytes behind the last
/// frame, and so are bytes that are dropped.
pub proof fn lemma_frames_are_a_prefix(pending: Seq<u8>)
    ensures
        ({
            let drained = drain(pending);
            let carried = drained.frames.flatten();
            &&& carried.len() <= pending.len()
            &&& carried == pending.take(carried.len() as int)
            &&& forall|i: int| 0 <= i < drained.frames.len() ==> drained.frames[i].len() > 0
            &&& drained.rest.len() > 0 ==> drained.rest == pending.skip(carried.len() as int)
            &&& drained.dropped > 0 ==> drained.dropped == pending.len() - carried.len()
        }),
    decreases pending.len(),
{
    let (rest, yielded) = step(pending, first_value(pending));
    if yielded is Frame {
        lemma_frames_are_a_prefix(rest);
        assert(drain(pending).frames.drop_first() =~= drain(rest).frames);
    }
}

/// The byte sequences that a list of frames holds.
pub open spec fn contents(frames: Seq<Vec<u8>>) -> Seq<Seq<u8>> {
    frames.map_values(|frame: Vec<u8>| frame@)
}

/// What a buffer hands out after one read.
#[derive(Debug, PartialEq, Eq)]
pub struct Received {
    /// The bytes of each whole value, in the order of arrival.
    pub frames: Vec<Vec<u8>>,
    /// The number of bytes dropped as no JSON; 0 where none were.
    pub dropped: usize,
}

/// The bytes that one connection has delivered and that no frame has
/// carried away yet.
pub struct FrameBuffer {
    pending: Vec<u8>,
}

impl View for FrameBuffer {
    type V = Seq<u8>;

    closed spec fn view(&self) -> Seq<u8> {
        self.pending@
    }
}

impl FrameBuffer {
    /// An empty buffer.
    pub fn new() -> (buffer: FrameBuffer)
        ensures
            buffer@ == Seq::<u8>::empty(),
    {
        FrameBuffer { pending: Vec::new() }
    }

    /// The number of bytes that wait in the buffer.
    pub fn pending_len(&self) -> (n: usize)
        ensures
            n == self@.len(),
    {
        self.pending.len()
    }

    /// Appends the bytes of one read.
    pub fn extend(&mut self, chunk: &[u8])
        ensures
            final(self)@ == old(self)@ + chunk@,
    {
        self.pending.extend_from_slice(chunk);
    }

    /// Acts on the reader's answer `found` about this buffer: see `step`.
    pub fn take(&mut self, found: Scan) -> (yielded: Step)
        ensures
            (final(self)@, yielded@) == step(old(self)@, found),
    {
        match found {
            Scan::Complete(end) => {
                if 0 < end && end <= self.pending.len() {
                    let mut rest = self.pending.split_off(end);
                    std::mem::swap(&mut self.pending, &mut rest);
                    Step::Frame(rest)
                } else {
                    let n = self.pending.len();
                    self.pending.clear();
                    Step::Dropped(n)
                }
            },
            Scan::Partial => Step::NeedMore,
            Scan::Blank => {
                self.pending.clear();
                Step::NeedMore
            },
            Scan::Malformed => {
                let n = self.pending.len();
                self.pending.clear();
                Step::Dropped(n)
            },
        }
    }

    /// Looks for one whole value at the front of the buffer.
    pub fn next_frame(&mut self) -> (yielded: Step)
        ensures
            (final(self)@, yielded@) == step(old(self)@, first_value(old(self)@)),
    {
        let found = scan(&self.pending);
        self.take(found)
    }

    /// Takes the bytes of one read and hands out every value that is whole
    /// now: see `drain`. A value that is still cut short stays in the buffer
    /// for the next read.
    pub fn feed(&mut self, chunk: &[u8]) -> (received: Received)
        ensures
            final(self)@ == drain(old(self)@ + chunk@).rest,
            contents(received.frames@) == drain(old(self)@ + chunk@).frames,
            received.dropped == drain(old(self)@ + chunk@).dropped,
    {
        self.extend(chunk);
        let ghost start = self@;
        let mut frames: Vec<Vec<u8>> = Vec::new();
        let mut dropped: usize = 0;
        loop
            invariant_except_break
                drain(start).frames == contents(frames@) + drain(self@).frames,
                drain(start).rest == drain(self@).rest,
                drain(start).dropped == drain(self@).dropped,
                dropped == 0,
            ensures
                drain(start).frames == contents(frames@),
                drain(start).rest == self@,
                drain(start).dropped == dropped,
            decreases self@.len(),
        {
            match self.next_frame() {
                Step::Frame(frame) => {
                    frames.push(frame);
                },
                Step::NeedMore => {
                    break ;
                },
                Step::Dropped(n) => {
                    dropped = n;
                    break ;
                },
            }
        }
        Received { frames, dropped }
    }
}

} // verus!
