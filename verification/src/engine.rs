//! The playback engine: a read cursor and a speed over a record buffer.

use crate::binary32::{floor_of, index_below, lemma_floor_is_monotone, lemma_floor_not_negative, is_position, less_than, lt, HUNDREDTH, ONE, ZERO};
use crate::buffer::{silence, Frame, RecordBuffer, SECONDS};
use crate::params::ParameterStore;
use vstd::prelude::*;

verus! {

/// What the engine plays for one frame while braking.
#[derive(Clone, Copy, Debug, PartialEq, Eq, Structural)]
pub enum FrameOutput {
    /// Nothing: the speed has decayed, or too little is recorded ahead of the
    /// read cursor.
    Silence,
    /// The linear interpolation between two neighbouring recorded frames, at
    /// the read cursor's distance from `index`.
    Blend { index: usize, earlier: Frame, later: Frame },
}

/// The sums and products that the engine needs but does not compute itself,
/// as three functions on single-precision bit patterns.
pub struct Arithmetic<S, D, B> {
    /// `read_cursor + speed`, from the read cursor and the speed.
    pub advance: S,
    /// `speed * (0.999 + (0.5 + decay_rate / 2) / 1000)`, from the speed and
    /// the decay rate.
    pub decay: D,
    /// `earlier + (later - earlier) * (read_cursor - index)`, from the two
    /// samples, the read cursor and its integer part.
    pub blend: B,
}

impl<S: Fn(u32, u32) -> u32, D: Fn(u32, u32) -> u32, B: Fn(u32, u32, u32, usize) -> u32> Arithmetic<
    S,
    D,
    B,
> {
    /// The functions can be called on whatever the engine hands them: any
    /// patterns, and for `blend` any position with its integer part.
    pub open spec fn total(&self) -> bool {
        &&& forall|read_cursor: u32, speed: u32| call_requires(self.advance, (read_cursor, speed))
        &&& forall|speed: u32, decay_rate: u32| call_requires(self.decay, (speed, decay_rate))
        &&& forall|earlier: u32, later: u32, read_cursor: u32, index: usize|
            is_position(read_cursor) && index == floor_of(read_cursor) ==> call_requires(
                self.blend,
                (earlier, later, read_cursor, index),
            )
    }

    /// `next` is what `advance` gave for this read cursor and speed.
    pub open spec fn advances(&self, read_cursor: u32, speed: u32, next: u32) -> bool {
        call_ensures(self.advance, (read_cursor, speed), next)
    }

    /// `next` is what `decay` gave for this speed and decay rate.
    pub open spec fn decays(&self, speed: u32, decay_rate: u32, next: u32) -> bool {
        call_ensures(self.decay, (speed, decay_rate), next)
    }

    /// `out` is what `blend` gave, channel by channel, for these two frames
    /// at this read cursor.
    pub open spec fn blends(&self, earlier: Frame, later: Frame, read_cursor: u32, out: Frame) -> bool {
        &&& call_ensures(
            self.blend,
            (earlier.left, later.left, read_cursor, floor_of(read_cursor) as usize),
            out.left,
        )
        &&& call_ensures(
            self.blend,
            (earlier.right, later.right, read_cursor, floor_of(read_cursor) as usize),
            out.right,
        )
    }

    /// `out` is what one frame plays at this speed and read cursor over
    /// these slots: silence unless the frame is audible, else the blend of
    /// the two slots around the read cursor.
    pub open spec fn plays(
        &self,
        speed: u32,
        read_cursor: u32,
        write_cursor: nat,
        slots: Seq<Frame>,
        out: Frame,
    ) -> bool {
        if audible(speed, read_cursor, write_cursor) {
            self.blends(
                slots[floor_of(read_cursor)],
                slots[floor_of(read_cursor) + 1],
                read_cursor,
                out,
            )
        } else {
            out == silence()
        }
    }

    /// Frame `j` of a block is braked as it should be. `cursors` and `speeds`
    /// hold the read cursor and the speed before each frame and, last, after
    /// the block: the ones after frame `j` follow from those before it by
    /// `advance` and `decay`. The frame is played once `j + 1` frames have
    /// been offered to a buffer whose write cursor stood at `cursor` and
    /// which has `limit` slots.
    pub open spec fn brakes_frame(
        &self,
        decay_rate: u32,
        output: Seq<Frame>,
        cursors: Seq<u32>,
        speeds: Seq<u32>,
        cursor: nat,
        limit: nat,
        slots: Seq<Frame>,
        j: int,
    ) -> bool {
        &&& self.advances(cursors[j], speeds[j], cursors[j + 1])
        &&& self.decays(speeds[j], decay_rate, speeds[j + 1])
        &&& self.plays(
            speeds[j],
            cursors[j],
            filled_after(cursor, limit, (j + 1) as nat),
            slots,
            output[j],
        )
    }

    /// `output` is what a block plays: every frame of it is braked as it
    /// should be.
    pub open spec fn brakes(
        &self,
        decay_rate: u32,
        output: Seq<Frame>,
        cursors: Seq<u32>,
        speeds: Seq<u32>,
        cursor: nat,
        limit: nat,
        slots: Seq<Frame>,
    ) -> bool {
        &&& cursors.len() == output.len() + 1
        &&& speeds.len() == output.len() + 1
        &&& forall|j: int|
            0 <= j < output.len() ==> #[trigger] self.brakes_frame(
                decay_rate,
                output,
                cursors,
                speeds,
                cursor,
                limit,
                slots,
                j,
            )
    }
}

/// Whether a frame is played from the recording: the speed is not below a
/// hundredth, and the read cursor is a position whose two neighbouring frames
/// both lie below the write cursor.
pub open spec fn audible(speed: u32, read_cursor: u32, write_cursor: nat) -> bool {
    &&& !lt(speed, HUNDREDTH)
    &&& is_position(read_cursor)
    &&& floor_of(read_cursor) + 1 < write_cursor
}

/// What is recorded after a block of frames has been offered to a buffer that
/// held `recorded` and has `limit` slots: the frames that fitted.
pub open spec fn recorded_after(recorded: Seq<Frame>, limit: nat, block: Seq<Frame>) -> Seq<Frame> {
    if recorded.len() + block.len() <= limit {
        recorded + block
    } else {
        (recorded + block).take(limit as int)
    }
}

/// Where the write cursor stands after `count` frames have been offered: it
/// stops at the last slot.
pub open spec fn filled_after(cursor: nat, limit: nat, count: nat) -> nat {
    if cursor + count <= limit {
        cursor + count
    } else {
        limit
    }
}

/// The record buffer with the state of its playback.
pub struct PlaybackEngine {
    buffer: RecordBuffer,
    read_cursor: u32,
    speed: u32,
}

impl PlaybackEngine {
    /// The record buffer.
    pub closed spec fn buffer(&self) -> RecordBuffer {
        self.buffer
    }

    /// The position that the next frame is played from.
    pub closed spec fn read_cursor(&self) -> u32 {
        self.read_cursor
    }

    /// The playback rate.
    pub closed spec fn speed(&self) -> u32 {
        self.speed
    }

    /// The buffer's cursor lies within its slots.
    pub open spec fn wf(&self) -> bool {
        self.buffer().wf()
    }

    /// The state that every braking episode starts from: nothing recorded, the
    /// read cursor at zero, full speed.
    pub open spec fn rearmed(&self) -> bool {
        &&& self.buffer().cursor() == 0
        &&& self.read_cursor() == ZERO
        &&& self.speed() == ONE
    }

    /// What the engine plays in its present state.
    pub open spec fn output(&self) -> FrameOutput {
        if audible(self.speed(), self.read_cursor(), self.buffer().cursor()) {
            FrameOutput::Blend {
                index: floor_of(self.read_cursor()) as usize,
                earlier: self.buffer().recorded()[floor_of(self.read_cursor())],
                later: self.buffer().recorded()[floor_of(self.read_cursor()) + 1],
            }
        } else {
            FrameOutput::Silence
        }
    }

    /// An engine without buffer slots, ready to brake.
    pub fn new() -> (engine: PlaybackEngine)
        ensures
            engine.wf(),
            engine.rearmed(),
            engine.buffer().limit() == 0,
    {
        PlaybackEngine { buffer: RecordBuffer::new(), read_cursor: ZERO, speed: ONE }
    }

    /// Sizes the buffer for ten seconds at the given rate, all silence, and
    /// puts both cursors back to zero. The speed stays.
    pub fn set_sample_rate(&mut self, sample_rate_hz: usize)
        requires
            sample_rate_hz * SECONDS <= usize::MAX,
        ensures
            final(self).wf(),
            final(self).buffer().cursor() == 0,
            final(self).buffer().limit() == sample_rate_hz * SECONDS,
            forall|i: int|
                0 <= i < final(self).buffer().limit() ==> final(self).buffer().slots()[i]
                    == silence(),
            final(self).read_cursor() == ZERO,
            final(self).speed() == old(self).speed(),
    {
        self.buffer.resize(sample_rate_hz);
        self.read_cursor = ZERO;
    }

    /// Gives up the braking episode: both cursors to zero, full speed. The
    /// slots keep what they hold, out of reach of any read.
    pub fn reset(&mut self)
        ensures
            final(self).wf(),
            final(self).rearmed(),
            final(self).buffer().slots() == old(self).buffer().slots(),
    {
        self.buffer.reset();
        self.read_cursor = ZERO;
        self.speed = ONE;
    }

    /// Records one input frame, while a slot is free.
    pub fn record(&mut self, left: u32, right: u32)
        requires
            old(self).wf(),
        ensures
            final(self).wf(),
            final(self).buffer().slots() == old(self).buffer().slots_after_append(
                Frame { left, right },
            ),
            final(self).buffer().cursor() == old(self).buffer().cursor_after_append(),
            final(self).read_cursor() == old(self).read_cursor(),
            final(self).speed() == old(self).speed(),
    {
        self.buffer.append(left, right);
    }

    /// What is played in the present state: silence, or the two recorded
    /// frames to interpolate between.
    pub fn frame_output(&self) -> (out: FrameOutput)
        requires
            self.wf(),
        ensures
            out == self.output(),
    {
        if less_than(self.speed, HUNDREDTH) {
            return FrameOutput::Silence;
        }
        match index_below(self.read_cursor, self.buffer.write_cursor()) {
            None => FrameOutput::Silence,
            Some(index) => {
                let (earlier, later) = self.buffer.neighbours(index);
                FrameOutput::Blend { index, earlier, later }
            },
        }
    }

    /// Takes over the read cursor and the speed that follow from one frame of
    /// playback.
    pub fn advance(&mut self, read_cursor: u32, speed: u32)
        ensures
            final(self).buffer() == old(self).buffer(),
            final(self).read_cursor() == read_cursor,
            final(self).speed() == speed,
    {
        self.read_cursor = read_cursor;
        self.speed = speed;
    }

    /// One frame of braking: records the input, plays from the recording,
    /// moves the read cursor on by the speed and lets the speed decay.
    pub fn brake_frame<S: Fn(u32, u32) -> u32, D: Fn(u32, u32) -> u32, B: Fn(u32, u32, u32, usize) -> u32>(
        &mut self,
        math: &Arithmetic<S, D, B>,
        decay_rate: u32,
        left: u32,
        right: u32,
    ) -> (out: Frame)
        requires
            old(self).wf(),
            math.total(),
        ensures
            final(self).wf(),
            final(self).buffer().slots() == old(self).buffer().slots_after_append(
                Frame { left, right },
            ),
            final(self).buffer().cursor() == old(self).buffer().cursor_after_append(),
            math.advances(old(self).read_cursor(), old(self).speed(), final(self).read_cursor()),
            math.decays(old(self).speed(), decay_rate, final(self).speed()),
            math.plays(
                old(self).speed(),
                old(self).read_cursor(),
                final(self).buffer().cursor(),
                final(self).buffer().slots(),
                out,
            ),
    {
        self.record(left, right);
        proof {
            lemma_floor_not_negative(self.read_cursor);
        }
        let out = match self.frame_output() {
            FrameOutput::Silence => Frame { left: ZERO, right: ZERO },
            FrameOutput::Blend { index, earlier, later } => Frame {
                left: (math.blend)(earlier.left, later.left, self.read_cursor, index),
                right: (math.blend)(earlier.right, later.right, self.read_cursor, index),
            },
        };
        let read_cursor = (math.advance)(self.read_cursor, self.speed);
        let speed = (math.decay)(self.speed, decay_rate);
        self.advance(read_cursor, speed);
        out
    }

    /// One block of audio. With the brake off the engine is reset and the
    /// input comes back unchanged; with it on every frame is braked in turn.
    pub fn process<S: Fn(u32, u32) -> u32, D: Fn(u32, u32) -> u32, B: Fn(u32, u32, u32, usize) -> u32>(
        &mut self,
        params: &ParameterStore,
        math: &Arithmetic<S, D, B>,
        input: &Vec<Frame>,
    ) -> (output: Vec<Frame>)
        requires
            old(self).wf(),
            math.total(),
        ensures
            final(self).wf(),
            output.len() == input.len(),
            final(self).buffer().limit() == old(self).buffer().limit(),
            !params.enabled() ==> {
                &&& output@ == input@
                &&& final(self).rearmed()
                &&& final(self).buffer().slots() == old(self).buffer().slots()
            },
            params.enabled() ==> {
                &&& final(self).buffer().cursor() == filled_after(
                    old(self).buffer().cursor(),
                    old(self).buffer().limit(),
                    input.len() as nat,
                )
                &&& final(self).buffer().recorded() == recorded_after(
                    old(self).buffer().recorded(),
                    old(self).buffer().limit(),
                    input@,
                )
                &&& forall|k: int|
                    final(self).buffer().cursor() <= k < final(self).buffer().limit() ==> (
                    #[trigger] final(self).buffer().slots()[k]) == old(self).buffer().slots()[k]
                &&& exists|cursors: Seq<u32>, speeds: Seq<u32>|
                    {
                        &&& #[trigger] math.brakes(
                            params.decay_rate(),
                            output@,
                            cursors,
                            speeds,
                            old(self).buffer().cursor(),
                            old(self).buffer().limit(),
                            final(self).buffer().slots(),
                        )
                        &&& cursors.first() == old(self).read_cursor()
                        &&& speeds.first() == old(self).speed()
                        &&& cursors.last() == final(self).read_cursor()
                        &&& speeds.last() == final(self).speed()
                    }
            },
    {
        let mut output: Vec<Frame> = Vec::new();
        if !params.get_enabled() {
            self.reset();
            let mut i: usize = 0;
            while i < input.len()
                invariant
                    i <= input.len(),
                    output@ == input@.take(i as int),
                decreases input.len() - i,
            {
                output.push(input[i]);
                i += 1;
            }
            return output;
        }
        let ghost before = self.buffer;
        let ghost mut cursors: Seq<u32> = seq![self.read_cursor];
        let ghost mut speeds: Seq<u32> = seq![self.speed];
        let mut i: usize = 0;
        assert(before.recorded() + input@.take(0) =~= before.recorded());
        while i < input.len()
            invariant
                i <= input.len(),
                self.wf(),
                before.wf(),
                math.total(),
                output.len() == i,
                self.buffer().limit() == before.limit(),
                self.buffer().recorded() == recorded_after(
                    before.recorded(),
                    before.limit(),
                    input@.take(i as int),
                ),
                self.buffer().cursor() == filled_after(before.cursor(), before.limit(), i as nat),
                forall|k: int|
                    self.buffer().cursor() <= k < before.limit() ==> (
                    #[trigger] self.buffer().slots()[k]) == before.slots()[k],
                math.brakes(
                    params.decay_rate(),
                    output@,
                    cursors,
                    speeds,
                    before.cursor(),
                    before.limit(),
                    self.buffer().slots(),
                ),
                cursors.first() == old(self).read_cursor(),
                speeds.first() == old(self).speed(),
                cursors.last() == self.read_cursor(),
                speeds.last() == self.speed(),
            decreases input.len() - i,
        {
            let ghost earlier = self.buffer;
            let ghost played = output@;
            let ghost old_cursors = cursors;
            let ghost old_speeds = speeds;
            let frame = input[i];
            let out = self.brake_frame(math, params.get_decay_rate(), frame.left, frame.right);
            output.push(out);
            proof {
                cursors = cursors.push(self.read_cursor);
                speeds = speeds.push(self.speed);
                let rate = params.decay_rate();
                assert forall|j: int| 0 <= j < output@.len() implies #[trigger] math.brakes_frame(
                    rate,
                    output@,
                    cursors,
                    speeds,
                    before.cursor(),
                    before.limit(),
                    self.buffer().slots(),
                    j,
                ) by {
                    if j < i {
                        assert(math.brakes_frame(
                            rate,
                            played,
                            old_cursors,
                            old_speeds,
                            before.cursor(),
                            before.limit(),
                            earlier.slots(),
                            j,
                        ));
                        lemma_floor_not_negative(cursors[j]);
                    }
                }
                let seen = input@.take(i as int);
                assert(input@.take(i + 1) =~= seen.push(frame));
                assert(before.recorded() + seen.push(frame) =~= (before.recorded() + seen).push(
                    frame,
                ));
                let offered = before.recorded() + seen;
                assert(earlier.recorded().len() == earlier.cursor());
                if earlier.cursor() < earlier.limit() {
                    assert(earlier.recorded() == offered);
                    assert(self.buffer().recorded() =~= offered.push(frame));
                } else {
                    assert(self.buffer().recorded() == earlier.recorded());
                    assert(offered.push(frame).take(before.limit() as int) =~= offered.take(
                        before.limit() as int,
                    ));
                    assert(offered.len() == before.limit() ==> offered.take(
                        before.limit() as int,
                    ) =~= offered);
                }
            }
            i += 1;
        }
        assert(input@.take(i as int) == input@);
        output
    }

    /// The index of the next write into the buffer.
    pub fn write_cursor(&self) -> (cursor: usize)
        ensures
            cursor == self.buffer().cursor(),
    {
        self.buffer.write_cursor()
    }

    /// The number of slots in the buffer.
    pub fn capacity(&self) -> (capacity: usize)
        ensures
            capacity == self.buffer().limit(),
    {
        self.buffer.capacity()
    }

    /// The read cursor's bit pattern.
    pub fn get_read_cursor(&self) -> (read_cursor: u32)
        ensures
            read_cursor == self.read_cursor(),
    {
        self.read_cursor
    }

    /// The speed's bit pattern.
    pub fn get_speed(&self) -> (speed: u32)
        ensures
            speed == self.speed(),
    {
        self.speed
    }
}

impl Default for PlaybackEngine {
    /// The same engine as `new` gives.
    fn default() -> (engine: PlaybackEngine)
        ensures
            engine.wf(),
            engine.rearmed(),
            engine.buffer().limit() == 0,
    {
        PlaybackEngine::new()
    }
}

/// The silence guard: whatever the buffer holds, nothing is played from it
/// once the speed is below a hundredth, or while the read cursor is no position
/// with both neighbours recorded. What is played lies below the write cursor.
pub proof fn lemma_silence_guard(engine: PlaybackEngine)
    requires
        engine.wf(),
    ensures
        lt(engine.speed(), HUNDREDTH) ==> engine.output() == FrameOutput::Silence,
        !is_position(engine.read_cursor()) ==> engine.output() == FrameOutput::Silence,
        floor_of(engine.read_cursor()) + 1 >= engine.buffer().cursor() ==> engine.output()
            == FrameOutput::Silence,
        engine.buffer().cursor() < 2 ==> engine.output() == FrameOutput::Silence,
        engine.output() != FrameOutput::Silence ==> {
            &&& engine.output() matches FrameOutput::Blend { index, earlier, later }
            &&& index + 1 < engine.buffer().cursor() <= engine.buffer().limit()
            &&& earlier == engine.buffer().slots()[index as int]
            &&& later == engine.buffer().slots()[index + 1]
        },
{
    lemma_floor_not_negative(engine.read_cursor());
}

/// Nothing is played from the recording while the read cursor is not below
/// the last recorded frame: not below any position `bound` whose integer part
/// is the write cursor less one, or more.
pub proof fn lemma_silent_from_the_last_frame(engine: PlaybackEngine, bound: u32)
    requires
        engine.wf(),
        is_position(bound),
        floor_of(bound) + 1 >= engine.buffer().cursor(),
        !lt(engine.read_cursor(), bound),
    ensures
        engine.output() == FrameOutput::Silence,
{
    if is_position(engine.read_cursor()) {
        lemma_floor_is_monotone(bound, engine.read_cursor());
    }
}

/// At full speed with the read cursor at zero, the engine is silent until two
/// frames are recorded and from then on plays between the first two.
pub proof fn lemma_plays_from_the_start(engine: PlaybackEngine)
    requires
        engine.wf(),
        engine.read_cursor() == ZERO,
        engine.speed() == ONE,
    ensures
        engine.buffer().cursor() < 2 ==> engine.output() == FrameOutput::Silence,
        engine.buffer().cursor() >= 2 ==> engine.output() == (FrameOutput::Blend {
            index: 0,
            earlier: engine.buffer().slots()[0],
            later: engine.buffer().slots()[1],
        }),
{
}

/// A braking episode that starts from the re-armed state records the block it
/// is given and nothing else: what the slots held before does not show.
pub proof fn lemma_rearmed_records_afresh(engine: PlaybackEngine, block: Seq<Frame>)
    requires
        engine.wf(),
        engine.rearmed(),
    ensures
        recorded_after(engine.buffer().recorded(), engine.buffer().limit(), block)
            == recorded_after(Seq::empty(), engine.buffer().limit(), block),
        block.len() <= engine.buffer().limit() ==> recorded_after(
            engine.buffer().recorded(),
            engine.buffer().limit(),
            block,
        ) == block,
{
    assert(engine.buffer().recorded() =~= Seq::<Frame>::empty());
    assert(Seq::<Frame>::empty() + block =~= block);
}

/// However many frames are offered, the write cursor ends within the slots,
/// and exactly at their number when more are offered than are free.
pub proof fn lemma_cursor_stops_at_capacity(cursor: nat, limit: nat, count: nat)
    requires
        cursor <= limit,
    ensures
        filled_after(cursor, limit, count) <= limit,
        count > limit - cursor ==> filled_after(cursor, limit, count) == limit,
        filled_after(limit, limit, count) == limit,
{
}

} // verus!
