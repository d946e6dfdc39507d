use rp2040_sandbox::sequencer::{frame_start, next_state, signals, Channel, Sequencer, Slot};
use rp2040_sandbox::stream::Stream;

#[test]
fn frame_table_counts() {
    let depth = 32u32;
    let mut s = frame_start();
    let mut shifts = 0;
    let mut cycles = 0;
    let mut left_bits = 0;
    for _ in 0..2 * depth {
        let sig = signals(s);
        if sig.shifts {
            shifts += 1;
            if s.channel == Channel::Left {
                left_bits += 1;
            }
        }
        cycles += sig.cycles;
        s = next_state(depth, s);
    }
    assert_eq!(shifts, 32);
    assert_eq!(left_bits, 32);
    assert_eq!(cycles, 160);
    assert_eq!(s.channel, Channel::Right);
    assert_eq!(s.slot, Slot::FrameStart);
    for _ in 0..2 * depth {
        s = next_state(depth, s);
    }
    assert_eq!(s, frame_start());
}

#[test]
fn clock_levels_per_state() {
    let depth = 4u32;
    let mut s = frame_start();
    let mut trace = Vec::new();
    for _ in 0..4 * depth {
        let sig = signals(s);
        trace.push((sig.bit_clock, sig.frame_clock, sig.shifts));
        s = next_state(depth, s);
    }
    let expected = vec![
        (true, false, false),
        (false, false, true),
        (true, false, false),
        (false, false, true),
        (true, false, false),
        (false, false, true),
        (true, false, false),
        (false, true, true),
        (true, true, false),
        (false, true, true),
        (true, true, false),
        (false, true, true),
        (true, true, false),
        (false, true, true),
        (true, true, false),
        (false, false, true),
    ];
    assert_eq!(trace, expected);
}

#[test]
fn data_is_shifted_msb_first() {
    let left = 0x8000_0001u32;
    let right = 0xF000_0000u32;
    let mut stream = Stream::start(vec![left, right], vec![0, 0], 2).ok().unwrap();
    let mut seq = Sequencer::new(32);
    let mut bits = Vec::new();
    let mut channels = Vec::new();
    for _ in 0..128 {
        let shifts = signals(seq.state).shifts;
        let ch = seq.state.channel;
        let out = seq.tick(&mut stream).unwrap();
        if shifts {
            bits.push(out.data as u32);
            channels.push(ch);
        }
    }
    let mut expected = Vec::new();
    for w in [left, right] {
        for k in 0..32 {
            expected.push((w >> (31 - k)) & 1);
        }
    }
    assert_eq!(bits, expected);
    assert!(channels[..32].iter().all(|c| *c == Channel::Left));
    assert!(channels[32..].iter().all(|c| *c == Channel::Right));
}

#[test]
fn sequencer_stalls_on_empty_queue() {
    let mut stream = Stream::start(vec![0xFFFF_FFFF], vec![0], 1).ok().unwrap();
    let mut seq = Sequencer::new(2);
    // a frame of depth 2 takes 8 states and two words
    for _ in 0..8 {
        assert!(seq.tick(&mut stream).is_some());
    }
    let before = seq.state;
    assert!(seq.tick(&mut stream).is_some()); // FrameStart needs no word
    assert!(seq.tick(&mut stream).is_none());
    assert!(seq.tick(&mut stream).is_none());
    assert_ne!(seq.state, before);
    assert_eq!(seq.state.slot, Slot::BitOut);
}
