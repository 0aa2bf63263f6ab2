use waw::buffer::{AudioBuffer, Sample, Topology, RENDER_QUANTUM};

fn ones() -> Vec<Sample> {
    vec![1.0f32.to_bits(); RENDER_QUANTUM]
}

fn zeros() -> Vec<Sample> {
    vec![0; RENDER_QUANTUM]
}

fn ramp(offset: u32) -> Vec<Sample> {
    (0..RENDER_QUANTUM as u32).map(|f| f + offset).collect()
}

fn block(ports: usize, channels: usize, seed: u32) -> Vec<Vec<Vec<Sample>>> {
    (0..ports)
        .map(|p| (0..channels).map(|c| ramp(seed + 1000 * p as u32 + 100 * c as u32)).collect())
        .collect()
}

#[test]
fn quantum_is_128_frames() {
    assert_eq!(RENDER_QUANTUM, 128);
}

#[test]
fn new_buffer_has_the_requested_layout_and_is_silent() {
    let buffer = AudioBuffer::new(2, 3, 1, 4);
    assert_eq!(
        buffer.topology(),
        Topology { inputs: 2, input_channels: 3, outputs: 1, output_channels: 4 }
    );
    for port in 0..2 {
        for channel in 0..3 {
            assert_eq!(buffer.input(port, channel).unwrap(), &zeros());
        }
    }
    for channel in 0..4 {
        assert_eq!(buffer.output(0, channel).unwrap(), &zeros());
    }
}

#[test]
fn channels_outside_the_layout_are_absent() {
    let buffer = AudioBuffer::new(2, 3, 1, 4);
    assert!(buffer.input(2, 0).is_none());
    assert!(buffer.input(0, 3).is_none());
    assert!(buffer.input(1, 2).is_some());
    assert!(buffer.output(1, 0).is_none());
    assert!(buffer.output(0, 4).is_none());
    assert!(buffer.output(0, 3).is_some());
}

#[test]
fn empty_layout_has_no_channels() {
    let mut buffer = AudioBuffer::new(0, 0, 0, 0);
    assert!(buffer.input(0, 0).is_none());
    assert!(buffer.output(0, 0).is_none());
    buffer.copy_from_input(&block(2, 2, 5));
    buffer.forward();
    let mut raw: Vec<Vec<Vec<Sample>>> = Vec::new();
    assert!(buffer.fits_output(&raw));
    buffer.copy_to_output(&mut raw);
    assert!(raw.is_empty());
}

#[test]
fn ports_without_channels_are_accepted() {
    let mut buffer = AudioBuffer::new(3, 0, 2, 0);
    buffer.copy_from_input(&block(3, 2, 0));
    buffer.forward();
    let mut raw: Vec<Vec<Vec<Sample>>> = vec![Vec::new(), Vec::new()];
    assert!(buffer.fits_output(&raw));
    buffer.copy_to_output(&mut raw);
    assert_eq!(raw, vec![Vec::<Vec<Sample>>::new(), Vec::new()]);
}

#[test]
fn copy_from_input_takes_every_sample() {
    let mut buffer = AudioBuffer::new(2, 2, 1, 1);
    let raw = block(2, 2, 7);
    buffer.copy_from_input(&raw);
    for port in 0..2 {
        for channel in 0..2 {
            assert_eq!(buffer.input(port, channel).unwrap(), &raw[port][channel]);
        }
    }
    assert_eq!(buffer.input(1, 1).unwrap()[127], 7 + 1000 + 100 + 127);
    assert_eq!(buffer.output(0, 0).unwrap(), &zeros());
}

#[test]
fn missing_input_channel_becomes_silent_not_stale() {
    let mut buffer = AudioBuffer::new(1, 2, 1, 2);
    buffer.copy_from_input(&vec![vec![ones(), ones()]]);
    assert_eq!(buffer.input(0, 1).unwrap(), &ones());
    buffer.copy_from_input(&vec![vec![ramp(3)]]);
    assert_eq!(buffer.input(0, 0).unwrap(), &ramp(3));
    assert_eq!(buffer.input(0, 1).unwrap(), &zeros());
}

#[test]
fn missing_input_port_becomes_silent_not_stale() {
    let mut buffer = AudioBuffer::new(2, 1, 1, 1);
    buffer.copy_from_input(&vec![vec![ones()], vec![ones()]]);
    buffer.copy_from_input(&vec![vec![ramp(1)]]);
    assert_eq!(buffer.input(0, 0).unwrap(), &ramp(1));
    assert_eq!(buffer.input(1, 0).unwrap(), &zeros());
    buffer.copy_from_input(&Vec::new());
    assert_eq!(buffer.input(0, 0).unwrap(), &zeros());
}

#[test]
fn short_input_channel_is_padded_with_silence() {
    let mut buffer = AudioBuffer::new(1, 1, 1, 1);
    buffer.copy_from_input(&vec![vec![ones()]]);
    buffer.copy_from_input(&vec![vec![vec![5, 6, 7]]]);
    let got = buffer.input(0, 0).unwrap();
    assert_eq!(got.len(), RENDER_QUANTUM);
    assert_eq!(&got[..4], &[5, 6, 7, 0]);
    assert!(got[3..].iter().all(|s| *s == 0));
}

#[test]
fn long_input_channel_is_cut_at_the_quantum() {
    let mut buffer = AudioBuffer::new(1, 1, 1, 1);
    let long: Vec<Sample> = (0..300).collect();
    buffer.copy_from_input(&vec![vec![long]]);
    let got = buffer.input(0, 0).unwrap();
    assert_eq!(got.len(), RENDER_QUANTUM);
    assert_eq!(got[127], 127);
}

#[test]
fn input_beyond_the_layout_is_ignored() {
    let mut buffer = AudioBuffer::new(1, 1, 1, 1);
    buffer.copy_from_input(&block(3, 4, 9));
    assert_eq!(buffer.topology().inputs, 1);
    assert_eq!(buffer.input(0, 0).unwrap(), &ramp(9));
    assert!(buffer.input(0, 1).is_none());
    assert!(buffer.input(1, 0).is_none());
}

#[test]
fn copy_from_input_keeps_layout_and_outputs() {
    let mut buffer = AudioBuffer::new(1, 2, 2, 1);
    assert!(buffer.set_output(1, 0, 4, 44));
    let before = buffer.topology();
    buffer.copy_from_input(&block(5, 5, 0));
    assert_eq!(buffer.topology(), before);
    assert_eq!(buffer.output(1, 0).unwrap()[4], 44);
}

#[test]
fn set_output_writes_one_sample() {
    let mut buffer = AudioBuffer::new(1, 1, 2, 2);
    assert!(buffer.set_output(1, 0, 127, 9));
    assert_eq!(buffer.output(1, 0).unwrap()[127], 9);
    assert_eq!(buffer.output(1, 0).unwrap()[126], 0);
    assert_eq!(buffer.output(1, 1).unwrap(), &zeros());
    assert_eq!(buffer.output(0, 0).unwrap(), &zeros());
    assert_eq!(buffer.input(0, 0).unwrap(), &zeros());
}

#[test]
fn set_output_outside_the_layout_changes_nothing() {
    let mut buffer = AudioBuffer::new(1, 1, 2, 2);
    assert!(!buffer.set_output(2, 0, 0, 9));
    assert!(!buffer.set_output(0, 2, 0, 9));
    assert!(!buffer.set_output(0, 0, 128, 9));
    for port in 0..2 {
        for channel in 0..2 {
            assert_eq!(buffer.output(port, channel).unwrap(), &zeros());
        }
    }
}

#[test]
fn fits_output_wants_the_exact_shape() {
    let buffer = AudioBuffer::new(1, 1, 2, 3);
    assert!(buffer.fits_output(&block(2, 3, 0)));
    assert!(!buffer.fits_output(&block(1, 3, 0)));
    assert!(!buffer.fits_output(&block(3, 3, 0)));
    assert!(!buffer.fits_output(&block(2, 2, 0)));
    assert!(!buffer.fits_output(&block(2, 4, 0)));
    let mut short = block(2, 3, 0);
    short[1][2].pop();
    assert!(!buffer.fits_output(&short));
    let mut long = block(2, 3, 0);
    long[0][0].push(1);
    assert!(!buffer.fits_output(&long));
    let mut uneven = block(2, 3, 0);
    uneven[1].pop();
    assert!(!buffer.fits_output(&uneven));
}

#[test]
fn copy_to_output_writes_every_channel_of_every_output() {
    let mut buffer = AudioBuffer::new(0, 0, 2, 2);
    for port in 0..2 {
        for channel in 0..2 {
            for frame in 0..RENDER_QUANTUM {
                let value = (1000 * port + 100 * channel + frame) as u32 + 3;
                assert!(buffer.set_output(port, channel, frame, value));
            }
        }
    }
    let mut raw = vec![vec![ones(), ones()], vec![ones(), ones()]];
    assert!(buffer.fits_output(&raw));
    buffer.copy_to_output(&mut raw);
    assert_eq!(raw, block(2, 2, 3));
}

#[test]
fn forward_copies_matching_channels() {
    let mut buffer = AudioBuffer::new(2, 2, 2, 2);
    let raw = block(2, 2, 11);
    buffer.copy_from_input(&raw);
    buffer.forward();
    let mut out = block(2, 2, 0);
    buffer.copy_to_output(&mut out);
    assert_eq!(out, raw);
    assert_eq!(buffer.input(1, 1).unwrap(), &raw[1][1]);
}

#[test]
fn forward_silences_outputs_without_an_input() {
    let mut buffer = AudioBuffer::new(1, 1, 2, 2);
    for port in 0..2 {
        for channel in 0..2 {
            assert!(buffer.set_output(port, channel, 0, 77));
        }
    }
    buffer.copy_from_input(&vec![vec![ramp(2)]]);
    buffer.forward();
    assert_eq!(buffer.output(0, 0).unwrap(), &ramp(2));
    assert_eq!(buffer.output(0, 1).unwrap(), &zeros());
    assert_eq!(buffer.output(1, 0).unwrap(), &zeros());
    assert_eq!(buffer.output(1, 1).unwrap(), &zeros());
}

#[test]
fn forward_drops_inputs_without_an_output() {
    let mut buffer = AudioBuffer::new(2, 2, 1, 1);
    buffer.copy_from_input(&block(2, 2, 4));
    buffer.forward();
    let mut out = block(1, 1, 0);
    buffer.copy_to_output(&mut out);
    assert_eq!(out, block(1, 1, 4));
}

#[test]
fn round_trip_reproduces_input_for_every_small_layout() {
    for ports in 0..4 {
        for channels in 0..4 {
            let mut buffer = AudioBuffer::new(ports, channels, ports, channels);
            let raw = block(ports, channels, 17);
            buffer.copy_from_input(&raw);
            buffer.forward();
            let mut out = block(ports, channels, 0);
            assert!(buffer.fits_output(&out));
            buffer.copy_to_output(&mut out);
            assert_eq!(out, raw);
        }
    }
}
