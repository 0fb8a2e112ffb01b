//! The fixed-capacity record buffer and its write cursor.

use vstd::prelude::*;

verus! {

/// One stereo sample pair, each channel a single-precision bit pattern.
#[derive(Clone, Copy, Debug, PartialEq, Eq, Structural)]
pub struct Frame {
    pub left: u32,
    pub right: u32,
}

/// How many frames are kept per hertz of sample rate: ten seconds of audio.
pub const SECONDS: usize = 10;

/// The number of channels in a frame.
pub const CHANNELS: i32 = 2;

/// A frame of silence.
pub open spec fn silence() -> Frame {
    Frame { left: 0, right: 0 }
}

/// A fixed number of frame slots, filled front to back and never wrapped.
pub struct RecordBuffer {
    samples: Vec<Frame>,
    write_cursor: usize,
}

impl RecordBuffer {
    /// Every slot, recorded or not.
    pub closed spec fn slots(&self) -> Seq<Frame> {
        self.samples@
    }

    /// The index that the next accepted frame is stored at.
    pub closed spec fn cursor(&self) -> nat {
        self.write_cursor as nat
    }

    /// The cursor never passes the last slot, and the slots can be counted.
    pub open spec fn wf(&self) -> bool {
        self.cursor() <= self.limit() <= usize::MAX
    }

    /// The number of slots.
    pub open spec fn limit(&self) -> nat {
        self.slots().len()
    }

    /// The frames recorded since the cursor was last at zero, oldest first.
    pub open spec fn recorded(&self) -> Seq<Frame> {
        self.slots().take(self.cursor() as int)
    }

    /// What one append makes of the slots: the frame goes to the cursor's slot
    /// while one is free.
    pub open spec fn slots_after_append(&self, frame: Frame) -> Seq<Frame> {
        if self.cursor() < self.limit() {
            self.slots().update(self.cursor() as int, frame)
        } else {
            self.slots()
        }
    }

    /// What one append makes of the cursor.
    pub open spec fn cursor_after_append(&self) -> nat {
        if self.cursor() < self.limit() {
            self.cursor() + 1
        } else {
            self.cursor()
        }
    }

    /// A buffer without slots: it accepts nothing until it is resized.
    pub fn new() -> (buffer: RecordBuffer)
        ensures
            buffer.wf(),
            buffer.limit() == 0,
            buffer.cursor() == 0,
    {
        RecordBuffer { samples: Vec::new(), write_cursor: 0 }
    }

    /// Replaces the slots by ten seconds' worth of silence at the given rate and
    /// puts the cursor back to zero.
    pub fn resize(&mut self, sample_rate_hz: usize)
        requires
            sample_rate_hz * SECONDS <= usize::MAX,
        ensures
            final(self).wf(),
            final(self).cursor() == 0,
            final(self).limit() == sample_rate_hz * SECONDS,
            forall|i: int| 0 <= i < final(self).limit() ==> final(self).slots()[i] == silence(),
    {
        let count: usize = sample_rate_hz * SECONDS;
        let mut samples: Vec<Frame> = Vec::new();
        let mut filled: usize = 0;
        while filled < count
            invariant
                filled <= count,
                samples.len() == filled,
                forall|i: int| 0 <= i < filled ==> samples@[i] == silence(),
            decreases count - filled,
        {
            samples.push(Frame { left: 0, right: 0 });
            filled += 1;
        }
        self.samples = samples;
        self.write_cursor = 0;
    }

    /// Stores the pair at the cursor and moves the cursor on; does nothing once
    /// every slot is taken.
    pub fn append(&mut self, left: u32, right: u32)
        requires
            old(self).wf(),
        ensures
            final(self).wf(),
            final(self).slots() == old(self).slots_after_append(Frame { left, right }),
            final(self).cursor() == old(self).cursor_after_append(),
    {
        if self.write_cursor < self.samples.len() {
            self.samples[self.write_cursor] = Frame { left, right };
            self.write_cursor += 1;
        }
    }

    /// Puts the cursor back to zero and leaves the slots as they are.
    pub fn reset(&mut self)
        ensures
            final(self).wf(),
            final(self).cursor() == 0,
            final(self).slots() == old(self).slots(),
    {
        self.write_cursor = 0;
        assert(self.samples.len() <= usize::MAX);
    }

    /// The index of the next write.
    pub fn write_cursor(&self) -> (cursor: usize)
        ensures
            cursor == self.cursor(),
    {
        self.write_cursor
    }

    /// The number of slots.
    pub fn capacity(&self) -> (capacity: usize)
        ensures
            capacity == self.limit(),
    {
        self.samples.len()
    }

    /// The recorded frames on either side of a position whose integer part is
    /// `index`: the one at `index` and the one after it.
    pub fn neighbours(&self, index: usize) -> (pair: (Frame, Frame))
        requires
            self.wf(),
            index + 1 < self.cursor(),
        ensures
            pair.0 == self.recorded()[index as int],
            pair.1 == self.recorded()[index + 1],
    {
        (self.samples[index], self.samples[index + 1])
    }
}

/// No append moves the cursor past the last slot, and a full buffer is not
/// changed by one.
pub proof fn lemma_append_stops_at_capacity(buffer: RecordBuffer, frame: Frame)
    requires
        buffer.wf(),
    ensures
        buffer.cursor_after_append() <= buffer.limit(),
        buffer.cursor() == buffer.limit() ==> {
            &&& buffer.cursor_after_append() == buffer.cursor()
            &&& buffer.slots_after_append(frame) == buffer.slots()
        },
{
}

} // verus!
