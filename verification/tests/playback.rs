use braker::buffer::{Frame, RecordBuffer};
use braker::engine::{Arithmetic, FrameOutput, PlaybackEngine};
use braker::params::ParameterStore;

fn advance(read_cursor: u32, speed: u32) -> u32 {
    (f32::from_bits(read_cursor) + f32::from_bits(speed)).to_bits()
}

fn decay(speed: u32, decay_rate: u32) -> u32 {
    (f32::from_bits(speed) * (0.999 + (0.5 + f32::from_bits(decay_rate) / 2.0) / 1000.0)).to_bits()
}

fn blend(earlier: u32, later: u32, read_cursor: u32, index: usize) -> u32 {
    let frac = f32::from_bits(read_cursor) - index as f32;
    let (a, b) = (f32::from_bits(earlier), f32::from_bits(later));
    (a + (b - a) * frac).to_bits()
}

type FloatMath = Arithmetic<fn(u32, u32) -> u32, fn(u32, u32) -> u32, fn(u32, u32, u32, usize) -> u32>;

fn float_math() -> FloatMath {
    Arithmetic { advance, decay, blend }
}

fn frame(left: f32, right: f32) -> Frame {
    Frame { left: left.to_bits(), right: right.to_bits() }
}

fn floats(f: Frame) -> (f32, f32) {
    (f32::from_bits(f.left), f32::from_bits(f.right))
}

fn store(enabled: bool, rate: f32) -> ParameterStore {
    let mut params = ParameterStore::new();
    params.set_enabled(if enabled { 1.0f32 } else { 0.0f32 }.to_bits());
    params.set_decay_rate(rate.to_bits());
    params
}

fn ramp(count: usize) -> Vec<Frame> {
    (0..count).map(|i| frame(i as f32 * 0.25, -(i as f32))).collect()
}

#[test]
fn new_buffer_accepts_nothing() {
    let mut buffer = RecordBuffer::new();
    assert_eq!(buffer.capacity(), 0);
    buffer.append(1.0f32.to_bits(), 1.0f32.to_bits());
    assert_eq!(buffer.write_cursor(), 0);
}

#[test]
fn resize_gives_ten_seconds_and_a_cursor_at_zero() {
    let mut buffer = RecordBuffer::new();
    buffer.resize(10);
    assert_eq!(buffer.capacity(), 100);
    buffer.append(1.0f32.to_bits(), 2.0f32.to_bits());
    assert_eq!(buffer.write_cursor(), 1);
    buffer.resize(3);
    assert_eq!(buffer.capacity(), 30);
    assert_eq!(buffer.write_cursor(), 0);
    buffer.resize(0);
    assert_eq!(buffer.capacity(), 0);
    buffer.append(1.0f32.to_bits(), 2.0f32.to_bits());
    assert_eq!(buffer.write_cursor(), 0);
}

#[test]
fn append_stops_at_capacity() {
    let mut buffer = RecordBuffer::new();
    buffer.resize(1);
    for i in 0..25 {
        buffer.append((i as f32).to_bits(), (i as f32).to_bits());
    }
    assert_eq!(buffer.write_cursor(), 10);
    assert_eq!(buffer.capacity(), 10);
    assert_eq!(buffer.neighbours(8), (frame(8.0, 8.0), frame(9.0, 9.0)));
    buffer.append(99.0f32.to_bits(), 99.0f32.to_bits());
    assert_eq!(buffer.write_cursor(), 10);
    assert_eq!(buffer.neighbours(8), (frame(8.0, 8.0), frame(9.0, 9.0)));
}

#[test]
fn reset_rewinds_and_later_appends_overwrite() {
    let mut buffer = RecordBuffer::new();
    buffer.resize(1);
    buffer.append(1.0f32.to_bits(), 1.0f32.to_bits());
    buffer.append(2.0f32.to_bits(), 2.0f32.to_bits());
    buffer.reset();
    assert_eq!(buffer.write_cursor(), 0);
    assert_eq!(buffer.capacity(), 10);
    buffer.append(5.0f32.to_bits(), 6.0f32.to_bits());
    buffer.append(7.0f32.to_bits(), 8.0f32.to_bits());
    assert_eq!(buffer.neighbours(0), (frame(5.0, 6.0), frame(7.0, 8.0)));
}

#[test]
fn passthrough_returns_the_input_and_records_nothing() {
    let mut engine = PlaybackEngine::new();
    engine.set_sample_rate(10);
    let input = ramp(37);
    let output = engine.process(&store(false, 0.5), &float_math(), &input);
    assert_eq!(output, input);
    assert_eq!(engine.write_cursor(), 0);
    assert_eq!(engine.get_read_cursor(), 0.0f32.to_bits());
    assert_eq!(engine.get_speed(), 1.0f32.to_bits());
    let empty = engine.process(&store(false, 0.5), &float_math(), &Vec::new());
    assert!(empty.is_empty());
}

#[test]
fn passthrough_keeps_patterns_that_are_no_numbers() {
    let mut engine = PlaybackEngine::new();
    let input = vec![Frame { left: 0x7FC0_1234, right: 0xFFFF_FFFF }, Frame { left: 0x8000_0000, right: 1 }];
    let output = engine.process(&store(false, 0.5), &float_math(), &input);
    assert_eq!(output, input);
}

#[test]
fn write_cursor_stops_at_capacity_while_braking() {
    let mut engine = PlaybackEngine::new();
    engine.set_sample_rate(1);
    let output = engine.process(&store(true, 0.5), &float_math(), &ramp(25));
    assert_eq!(output.len(), 25);
    assert_eq!(engine.write_cursor(), 10);
    assert_eq!(engine.capacity(), 10);
    engine.record(1.0f32.to_bits(), 1.0f32.to_bits());
    assert_eq!(engine.write_cursor(), 10);
    let more = engine.process(&store(true, 0.5), &float_math(), &ramp(3));
    assert_eq!(more.len(), 3);
    assert_eq!(engine.write_cursor(), 10);
}

#[test]
fn engine_without_slots_plays_silence() {
    let mut engine = PlaybackEngine::new();
    let output = engine.process(&store(true, 0.5), &float_math(), &ramp(8));
    assert_eq!(output, vec![frame(0.0, 0.0); 8]);
    assert_eq!(engine.write_cursor(), 0);
    engine.set_sample_rate(0);
    let output = engine.process(&store(true, 0.5), &float_math(), &ramp(8));
    assert_eq!(output, vec![frame(0.0, 0.0); 8]);
}

#[test]
fn interpolation_half_way_between_zero_and_one() {
    let mut engine = PlaybackEngine::new();
    engine.set_sample_rate(1);
    engine.record(0.0f32.to_bits(), 0.0f32.to_bits());
    engine.record(1.0f32.to_bits(), 1.0f32.to_bits());
    engine.advance(0.5f32.to_bits(), 1.0f32.to_bits());
    let out = engine.frame_output();
    assert_eq!(out, FrameOutput::Blend { index: 0, earlier: frame(0.0, 0.0), later: frame(1.0, 1.0) });
    let left = blend(0.0f32.to_bits(), 1.0f32.to_bits(), engine.get_read_cursor(), 0);
    assert_eq!(f32::from_bits(left), 0.5);
    let played = engine.brake_frame(&float_math(), 0.5f32.to_bits(), 0.0f32.to_bits(), 0.0f32.to_bits());
    assert_eq!(floats(played), (0.5, 0.5));
    assert_eq!(f32::from_bits(engine.get_read_cursor()), 1.5);
}

#[test]
fn interpolation_through_a_braked_frame() {
    let mut engine = PlaybackEngine::new();
    engine.set_sample_rate(1);
    engine.record(0.0f32.to_bits(), 4.0f32.to_bits());
    engine.advance(0.5f32.to_bits(), 1.0f32.to_bits());
    let out = engine.brake_frame(&float_math(), 0.5f32.to_bits(), 1.0f32.to_bits(), 8.0f32.to_bits());
    assert_eq!(floats(out), (0.5, 6.0));
    assert_eq!(f32::from_bits(engine.get_read_cursor()), 1.5);
    assert_eq!(f32::from_bits(engine.get_speed()), 1.0 * (0.999 + (0.5 + 0.5f32 / 2.0) / 1000.0));
    assert_eq!(engine.write_cursor(), 2);
}

#[test]
fn silence_when_the_speed_is_below_a_hundredth() {
    let mut engine = PlaybackEngine::new();
    engine.set_sample_rate(1);
    for _ in 0..5 {
        engine.record(3.0f32.to_bits(), 3.0f32.to_bits());
    }
    engine.advance(0.0f32.to_bits(), 0.0099f32.to_bits());
    assert_eq!(engine.frame_output(), FrameOutput::Silence);
    engine.advance(0.0f32.to_bits(), 0.01f32.to_bits());
    assert_eq!(engine.frame_output(), FrameOutput::Blend { index: 0, earlier: frame(3.0, 3.0), later: frame(3.0, 3.0) });
    engine.advance(0.0f32.to_bits(), (-1.0f32).to_bits());
    assert_eq!(engine.frame_output(), FrameOutput::Silence);
}

#[test]
fn silence_when_the_read_cursor_reaches_the_last_recorded_frame() {
    let mut engine = PlaybackEngine::new();
    engine.set_sample_rate(1);
    for _ in 0..5 {
        engine.record(3.0f32.to_bits(), 3.0f32.to_bits());
    }
    engine.advance(3.99f32.to_bits(), 1.0f32.to_bits());
    assert_eq!(engine.frame_output(), FrameOutput::Blend { index: 3, earlier: frame(3.0, 3.0), later: frame(3.0, 3.0) });
    engine.advance(4.0f32.to_bits(), 1.0f32.to_bits());
    assert_eq!(engine.frame_output(), FrameOutput::Silence);
    engine.advance(400.0f32.to_bits(), 1.0f32.to_bits());
    assert_eq!(engine.frame_output(), FrameOutput::Silence);
    engine.advance(f32::NAN.to_bits(), 1.0f32.to_bits());
    assert_eq!(engine.frame_output(), FrameOutput::Silence);
    engine.advance((-0.5f32).to_bits(), 1.0f32.to_bits());
    assert_eq!(engine.frame_output(), FrameOutput::Silence);
}

#[test]
fn silence_until_two_frames_are_recorded() {
    let mut engine = PlaybackEngine::new();
    engine.set_sample_rate(1);
    assert_eq!(engine.frame_output(), FrameOutput::Silence);
    engine.record(3.0f32.to_bits(), 3.0f32.to_bits());
    assert_eq!(engine.frame_output(), FrameOutput::Silence);
    engine.record(3.0f32.to_bits(), 3.0f32.to_bits());
    assert_eq!(engine.frame_output(), FrameOutput::Blend { index: 0, earlier: frame(3.0, 3.0), later: frame(3.0, 3.0) });
}

#[test]
fn rearming_discards_the_episode() {
    let mut engine = PlaybackEngine::new();
    engine.set_sample_rate(10);
    engine.process(&store(true, 0.5), &float_math(), &ramp(40));
    assert_eq!(engine.write_cursor(), 40);
    assert!(f32::from_bits(engine.get_speed()) < 1.0);
    assert!(f32::from_bits(engine.get_read_cursor()) > 0.0);
    engine.process(&store(false, 0.5), &float_math(), &ramp(4));
    assert_eq!(engine.write_cursor(), 0);
    assert_eq!(f32::from_bits(engine.get_speed()), 1.0);
    assert_eq!(f32::from_bits(engine.get_read_cursor()), 0.0);
    assert_eq!(engine.capacity(), 100);
    assert_eq!(engine.frame_output(), FrameOutput::Silence);
    let again = engine.process(&store(true, 0.5), &float_math(), &vec![frame(9.0, 9.0); 3]);
    assert_eq!(engine.write_cursor(), 3);
    assert_eq!(again, vec![frame(0.0, 0.0), frame(0.0, 0.0), frame(9.0, 9.0)]);
}

#[test]
fn rearmed_engine_behaves_as_a_new_one() {
    let mut used = PlaybackEngine::new();
    used.set_sample_rate(10);
    used.process(&store(true, 0.2), &float_math(), &ramp(70));
    used.process(&store(false, 0.2), &float_math(), &ramp(1));
    let mut fresh = PlaybackEngine::new();
    fresh.set_sample_rate(10);
    let input = ramp(150);
    let a = used.process(&store(true, 0.7), &float_math(), &input);
    let b = fresh.process(&store(true, 0.7), &float_math(), &input);
    assert_eq!(a, b);
    assert_eq!(used.write_cursor(), fresh.write_cursor());
    assert_eq!(used.get_speed(), fresh.get_speed());
    assert_eq!(used.get_read_cursor(), fresh.get_read_cursor());
}

#[test]
fn five_frames_of_ones_at_rate_ten() {
    let mut engine = PlaybackEngine::new();
    engine.set_sample_rate(10);
    assert_eq!(engine.capacity(), 100);
    let output = engine.process(&store(true, 0.5), &float_math(), &vec![frame(1.0, 1.0); 5]);
    assert_eq!(engine.write_cursor(), 5);
    assert_eq!(
        output,
        vec![frame(0.0, 0.0), frame(0.0, 0.0), frame(1.0, 1.0), frame(1.0, 1.0), frame(1.0, 1.0)]
    );
    engine.advance(0.0f32.to_bits(), 1.0f32.to_bits());
    assert_eq!(engine.frame_output(), FrameOutput::Blend { index: 0, earlier: frame(1.0, 1.0), later: frame(1.0, 1.0) });
    let sixth = engine.brake_frame(&float_math(), 0.5f32.to_bits(), 1.0f32.to_bits(), 1.0f32.to_bits());
    assert_eq!(floats(sixth), (1.0, 1.0));
    assert_eq!(engine.write_cursor(), 6);
}

#[test]
fn speed_decays_frame_by_frame() {
    for rate in [0.0f32, 0.5, 0.9] {
        let mut engine = PlaybackEngine::new();
        engine.set_sample_rate(100);
        let mut last = f32::from_bits(engine.get_speed());
        assert_eq!(last, 1.0);
        for _ in 0..500 {
            engine.brake_frame(&float_math(), rate.to_bits(), 0.0f32.to_bits(), 0.0f32.to_bits());
            let speed = f32::from_bits(engine.get_speed());
            assert!(speed < last && speed > 0.0 && speed <= 1.0);
            last = speed;
        }
    }
}

#[test]
fn set_sample_rate_keeps_the_speed() {
    let mut engine = PlaybackEngine::new();
    engine.set_sample_rate(10);
    engine.process(&store(true, 0.5), &float_math(), &ramp(10));
    let speed = engine.get_speed();
    engine.set_sample_rate(20);
    assert_eq!(engine.capacity(), 200);
    assert_eq!(engine.write_cursor(), 0);
    assert_eq!(engine.get_read_cursor(), 0.0f32.to_bits());
    assert_eq!(engine.get_speed(), speed);
    engine.reset();
    assert_eq!(engine.get_speed(), 1.0f32.to_bits());
}

#[test]
fn block_output_matches_a_frame_by_frame_model() {
    let capacity = 100usize;
    let mut engine = PlaybackEngine::new();
    engine.set_sample_rate(10);
    let input = ramp(260);
    let rate = 0.3f32;
    let mut recorded: Vec<(f32, f32)> = Vec::new();
    let (mut read_cursor, mut speed) = (0.0f32, 1.0f32);
    let mut expected = Vec::new();
    for f in &input {
        if recorded.len() < capacity {
            recorded.push(floats(*f));
        }
        let out = if speed < 0.01 || read_cursor >= recorded.len() as f32 - 1.0 {
            (0.0, 0.0)
        } else {
            let i = read_cursor.floor() as usize;
            let frac = read_cursor - i as f32;
            let ((tl, tr), (nl, nr)) = (recorded[i], recorded[i + 1]);
            (tl + (nl - tl) * frac, tr + (nr - tr) * frac)
        };
        read_cursor += speed;
        speed *= 0.999 + (0.5 + rate / 2.0) / 1000.0;
        expected.push(frame(out.0, out.1));
    }
    let first = engine.process(&store(true, rate), &float_math(), &input[..130].to_vec());
    let second = engine.process(&store(true, rate), &float_math(), &input[130..].to_vec());
    let output: Vec<Frame> = first.into_iter().chain(second).collect();
    assert_eq!(output, expected);
    assert_eq!(engine.write_cursor(), capacity);
    assert_eq!(engine.get_read_cursor(), read_cursor.to_bits());
    assert_eq!(engine.get_speed(), speed.to_bits());
}

#[test]
fn half_way_interpolation_through_a_block() {
    let mut engine = PlaybackEngine::new();
    engine.set_sample_rate(1);
    engine.record(0.0f32.to_bits(), 0.0f32.to_bits());
    engine.record(1.0f32.to_bits(), 1.0f32.to_bits());
    engine.advance(0.5f32.to_bits(), 1.0f32.to_bits());
    let output = engine.process(&store(true, 0.9999), &float_math(), &vec![frame(0.0, 0.0)]);
    assert_eq!(output, vec![frame(0.5, 0.5)]);
    assert_eq!(engine.write_cursor(), 3);
    assert_eq!(f32::from_bits(engine.get_read_cursor()), 1.5);
    assert_eq!(engine.get_speed(), decay(1.0f32.to_bits(), 0.9999f32.to_bits()));
}

#[test]
fn sixth_frame_of_ones_through_a_block() {
    let mut engine = PlaybackEngine::new();
    engine.set_sample_rate(10);
    for _ in 0..5 {
        engine.record(1.0f32.to_bits(), 1.0f32.to_bits());
    }
    let output = engine.process(&store(true, 0.9999), &float_math(), &vec![frame(1.0, 1.0)]);
    assert_eq!(output, vec![frame(1.0, 1.0)]);
    assert_eq!(engine.write_cursor(), 6);
    assert_eq!(f32::from_bits(engine.get_read_cursor()), 1.0);
}

fn second(_: u32, b: u32) -> u32 {
    b
}

fn mark(earlier: u32, later: u32, read_cursor: u32, index: usize) -> u32 {
    earlier * 1000 + later * 10 + read_cursor + index as u32
}

#[test]
fn every_result_of_the_arithmetic_is_taken_over() {
    let math = Arithmetic { advance: second, decay: second, blend: mark };
    let mut engine = PlaybackEngine::new();
    engine.set_sample_rate(1);
    engine.record(1, 2);
    engine.advance(0, 1.0f32.to_bits());
    let out = engine.brake_frame(&math, 77, 3, 4);
    assert_eq!(out, Frame { left: 1030, right: 2040 });
    assert_eq!(engine.get_read_cursor(), 1.0f32.to_bits());
    assert_eq!(engine.get_speed(), 77);
}
