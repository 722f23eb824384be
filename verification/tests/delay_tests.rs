use delay_line::config::{Config, ConfigError};
use delay_line::delay::DelayLine;
use delay_line::mixing::{mix_sample, GAIN_UNITY};
use delay_line::processor::{stereo_buffer_idxs, Processor, StreamAction};

const HALF: u32 = GAIN_UNITY / 2;

fn run_call(p: &mut Processor, input: &[i32]) -> Vec<i32> {
    let input: Vec<i32> = input.to_vec();
    let mut out: Vec<i32> = vec![0i32; input.len()];
    let action = p.process(&input, &mut out);
    assert_eq!(action, StreamAction::Continue);
    out
}

#[test]
fn stereo_idxs_interleave() {
    assert_eq!(stereo_buffer_idxs(0), (0, 1));
    assert_eq!(stereo_buffer_idxs(1), (2, 3));
    assert_eq!(stereo_buffer_idxs(127), (254, 255));
}

#[test]
fn mix_sample_exact_values() {
    // 1.0 (full-scale) at half dry gain, silence on the wet path.
    assert_eq!(mix_sample(32768, 0, HALF, HALF), 16384);
    assert_eq!(mix_sample(-32768, 0, HALF, HALF), -16384);
    // Quantization truncates toward zero on both signs.
    assert_eq!(mix_sample(1, 0, HALF, HALF), 0);
    assert_eq!(mix_sample(-1, 0, HALF, HALF), 0);
    // An arbitrary dry/wet combination, computed by hand:
    // (3 * 20000 + 5 * 10000) / 32768 = 110000 / 32768 = 3.
    assert_eq!(mix_sample(3, 5, 20000, 10000), 3);
    // Unity wet hands the delayed sample through unchanged.
    assert_eq!(mix_sample(123, -456, 0, GAIN_UNITY), -456);
}

#[test]
fn config_concrete_scenario_rejects_truncated_delay() {
    // frame_rate 44100, 128 frames per buffer, 0.5 s delay: 44100 delay
    // samples against 256 samples per buffer does not divide evenly
    // (44100 / 256 truncates to 172), so the configuration is rejected
    // rather than silently shortening the ring.
    let r = Config::new(44100, 128, 500, HALF, HALF);
    assert_eq!(r.unwrap_err(), ConfigError::MisalignedDelay);
}

#[test]
fn config_concrete_scenario_aligned_up() {
    // The same raw configuration with the delay stretched to the next
    // whole number of buffers: 173 * 256 = 44288 samples.
    let c = Config::new_aligned_up(44100, 128, 500, HALF, HALF).unwrap();
    assert_eq!(c.frame_rate(), 44100);
    assert_eq!(c.frames_per_buffer(), 128);
    assert_eq!(c.samples_per_buffer(), 256);
    assert_eq!(c.delay_samples(), 44288);
    assert_eq!(c.buffers_per_delay(), 173);
    assert_eq!(c.dry_amp(), HALF);
    assert_eq!(c.wet_amp(), HALF);
}

#[test]
fn config_derived_values_when_divides_evenly() {
    // 2 * 32000 * 0.5 s = 32000 samples, a clean 125 buffers of 256.
    let c = Config::new(32000, 128, 500, HALF, HALF).unwrap();
    assert_eq!(c.samples_per_buffer(), 256);
    assert_eq!(c.delay_samples(), 32000);
    assert_eq!(c.buffers_per_delay(), 125);
}

#[test]
fn config_error_zero_frame_rate() {
    assert_eq!(Config::new(0, 128, 500, 0, 0).unwrap_err(), ConfigError::ZeroFrameRate);
}

#[test]
fn config_error_zero_buffer_size() {
    assert_eq!(Config::new(44100, 0, 500, 0, 0).unwrap_err(), ConfigError::ZeroBufferSize);
}

#[test]
fn config_error_buffer_too_large() {
    let r = Config::new(44100, usize::MAX / 2 + 1, 500, 0, 0);
    assert_eq!(r.unwrap_err(), ConfigError::BufferTooLarge);
}

#[test]
fn config_error_zero_delay() {
    // A zero-millisecond delay rounds to zero samples.
    assert_eq!(Config::new(44100, 128, 0, 0, 0).unwrap_err(), ConfigError::ZeroDelay);
}

#[test]
fn config_error_gain_too_large() {
    let r = Config::new(32000, 128, 500, GAIN_UNITY, 1);
    assert_eq!(r.unwrap_err(), ConfigError::GainTooLarge);
    // Unity split between the two amplitudes is still fine.
    assert!(Config::new(32000, 128, 500, GAIN_UNITY, 0).is_ok());
}

#[test]
fn delay_line_shift_then_read() {
    // Two blocks of two samples: the oldest block is what was pushed two
    // advances ago.
    let mut line = DelayLine::new(2, 4);
    assert_eq!(line.read_oldest(0), (0, 0));
    line.advance(&vec![1, 2]);
    assert_eq!(line.read_oldest(0), (0, 0));
    line.advance(&vec![3, 4]);
    assert_eq!(line.read_oldest(0), (1, 2));
    line.advance(&vec![5, 6]);
    assert_eq!(line.read_oldest(0), (3, 4));
}

/// A tiny two-buffer delay line: frame rate 4, one frame per buffer,
/// 0.5 s delay = 4 samples = 2 buffers.
fn tiny_processor(dry: u32, wet: u32) -> Processor {
    let c = Config::new(4, 1, 500, dry, wet).unwrap();
    assert_eq!(c.samples_per_buffer(), 2);
    assert_eq!(c.buffers_per_delay(), 2);
    Processor::new(&c)
}

#[test]
fn zero_input_convergence() {
    // Feed sound once, then silence: after buffers_per_delay (2) silent
    // calls the line holds no residual energy and output stays silent.
    let mut p = tiny_processor(HALF, HALF);
    run_call(&mut p, &[32768, -32768]);
    run_call(&mut p, &[0, 0]);
    run_call(&mut p, &[0, 0]);
    for _ in 0..5 {
        assert_eq!(run_call(&mut p, &[0, 0]), vec![0, 0]);
    }
}

#[test]
fn impulse_propagation() {
    // 125 buffers per delay line; an impulse in frame 0 of call 0 shows up
    // wet-scaled at frame 0 of call 125 and nowhere else (beyond the dry
    // leakage of call 0 itself).
    let c = Config::new(32000, 128, 500, HALF, HALF).unwrap();
    let n = c.buffers_per_delay();
    let spb = c.samples_per_buffer();
    let mut p = Processor::new(&c);

    let mut impulse = vec![0i32; spb];
    impulse[0] = 32768;
    impulse[1] = -32768;

    let out0 = run_call(&mut p, &impulse);
    assert_eq!(out0[0], 16384);
    assert_eq!(out0[1], -16384);
    assert!(out0[2..].iter().all(|&s| s == 0));

    let silence = vec![0i32; spb];
    for _ in 1..n {
        let out = run_call(&mut p, &silence);
        assert!(out.iter().all(|&s| s == 0));
    }

    let out_n = run_call(&mut p, &silence);
    assert_eq!(out_n[0], 16384);
    assert_eq!(out_n[1], -16384);
    assert!(out_n[2..].iter().all(|&s| s == 0));

    let out_after = run_call(&mut p, &silence);
    assert!(out_after.iter().all(|&s| s == 0));
}

#[test]
fn impulse_under_aligned_up_config() {
    // With the 44100-sample delay stretched up to 173 whole buffers, the
    // impulse surfaces at call 173 — not at the truncated 172 the raw
    // division would suggest.
    let c = Config::new_aligned_up(44100, 128, 500, HALF, HALF).unwrap();
    let n = c.buffers_per_delay();
    assert_eq!(n, 173);
    let spb = c.samples_per_buffer();
    let mut p = Processor::new(&c);

    let mut impulse = vec![0i32; spb];
    impulse[0] = 32768;
    impulse[1] = -32768;
    run_call(&mut p, &impulse);

    let silence = vec![0i32; spb];
    for _ in 1..n {
        let out = run_call(&mut p, &silence);
        assert!(out.iter().all(|&s| s == 0));
    }
    let out_n = run_call(&mut p, &silence);
    assert_eq!(out_n[0], 16384);
    assert_eq!(out_n[1], -16384);
    assert!(out_n[2..].iter().all(|&s| s == 0));
}

#[test]
fn shift_correctness_tagged_buffers() {
    // Pure wet at unity gain turns the processor into a plain two-buffer
    // delay: each output is, content for content, the input from exactly
    // two calls before.
    let mut p = tiny_processor(0, GAIN_UNITY);
    let buffers = [[1, 2], [3, 4], [5, 6], [7, 8], [9, 10]];
    let mut outputs = Vec::new();
    for b in &buffers {
        outputs.push(run_call(&mut p, b));
    }
    assert_eq!(outputs[0], vec![0, 0]);
    assert_eq!(outputs[1], vec![0, 0]);
    assert_eq!(outputs[2], vec![1, 2]);
    assert_eq!(outputs[3], vec![3, 4]);
    assert_eq!(outputs[4], vec![5, 6]);
}

#[test]
fn no_torn_state_within_a_call() {
    // Every frame of a call reads the delay line as it stood before that
    // call's advance: with pure unity wet, the call that consumes [9, 10]
    // still answers with the buffer from two calls ago, never with its own
    // input, and the advance becomes observable only on the next call.
    let mut p = tiny_processor(0, GAIN_UNITY);
    run_call(&mut p, &[1, 2]);
    run_call(&mut p, &[3, 4]);
    assert_eq!(run_call(&mut p, &[9, 10]), vec![1, 2]);
    assert_eq!(run_call(&mut p, &[0, 0]), vec![3, 4]);
    assert_eq!(run_call(&mut p, &[0, 0]), vec![9, 10]);
}

#[test]
fn dry_wet_linearity() {
    // For a fixed delay history, the output is the affine combination
    // dry * in + wet * delayed, quantized by one truncating division.
    let dry: u32 = 20000;
    let wet: u32 = 12000;
    let history = [[11, -22], [33, -44]];
    let probes: [[i32; 2]; 4] = [[0, 0], [100, -100], [32768, -32768], [-1, 1]];
    for probe in &probes {
        let mut p = tiny_processor(dry, wet);
        run_call(&mut p, &history[0]);
        run_call(&mut p, &history[1]);
        let out = run_call(&mut p, probe);
        for t in 0..2 {
            let expected =
                (probe[t] as i64 * dry as i64 + history[0][t] as i64 * wet as i64) / 32768;
            assert_eq!(out[t] as i64, expected);
        }
    }
}
