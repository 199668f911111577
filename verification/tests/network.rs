use satin_demoverb::{DelayWithFeedback, Fixed, RoundingErrorDelayWithFeedback, Sample};

#[derive(Clone, Copy, Debug, PartialEq)]
struct F(f32);

impl Sample for F {
    fn ratio_spec(num: u32, den: u32) -> Self {
        F(num as f32 / den as f32)
    }

    fn plus_spec(self, rhs: Self) -> Self {
        F(self.0 + rhs.0)
    }

    fn minus_spec(self, rhs: Self) -> Self {
        F(self.0 - rhs.0)
    }

    fn times_spec(self, rhs: Self) -> Self {
        F(self.0 * rhs.0)
    }

    fn halved_spec(self) -> Self {
        F(self.0 / 2.0)
    }

    fn lt_spec(self, rhs: Self) -> bool {
        self.0 < rhs.0
    }

    fn le_spec(self, rhs: Self) -> bool {
        self.0 <= rhs.0
    }

    fn to_index_spec(self) -> i32 {
        self.0 as i32
    }

    fn ratio(num: u32, den: u32) -> Self {
        F(num as f32 / den as f32)
    }

    fn plus(self, rhs: Self) -> Self {
        F(self.0 + rhs.0)
    }

    fn minus(self, rhs: Self) -> Self {
        F(self.0 - rhs.0)
    }

    fn times(self, rhs: Self) -> Self {
        F(self.0 * rhs.0)
    }

    fn halved(self) -> Self {
        F(self.0 / 2.0)
    }

    fn lt(self, rhs: Self) -> bool {
        self.0 < rhs.0
    }

    fn le(self, rhs: Self) -> bool {
        self.0 <= rhs.0
    }

    fn to_index(self) -> i32 {
        self.0 as i32
    }
}

fn impulse_response(network: &mut DelayWithFeedback<F>, steps: usize) -> Vec<f32> {
    let mut outs = Vec::new();
    for n in 0..steps {
        outs.push(network.process(F(if n == 0 { 1.0 } else { 0.0 })).0);
    }
    outs
}

#[test]
fn impulse_without_feedback_appears_once_at_the_delay() {
    let sample_rate = F(8.0);
    let time = F(0.5).times(sample_rate.minus(F(1.0))).to_index();
    assert_eq!(time, 3);
    let mut network = DelayWithFeedback::new(time, F(0.0), sample_rate);
    assert_eq!(
        impulse_response(&mut network, 8),
        vec![0.0, 0.0, 0.0, 1.0, 0.0, 0.0, 0.0, 0.0]
    );
}

#[test]
fn energy_returns_one_step_after_both_lines_are_crossed() {
    let mut network = DelayWithFeedback::new(2, F(0.5), F(8.0));
    assert_eq!(
        impulse_response(&mut network, 14),
        vec![0.0, 0.0, 1.0, 0.0, 0.0, 0.0, 0.0, 0.5, 0.0, 0.0, 0.0, 0.0, 0.25, 0.0]
    );
}

#[test]
fn energy_decays_by_the_gain_on_every_return() {
    for d in 0..6usize {
        let mut network = DelayWithFeedback::new(d as i32, F(0.5), F(6.0));
        let outs = impulse_response(&mut network, 60);
        let period = 2 * d + 1;
        for (n, out) in outs.iter().enumerate() {
            let expected = if n >= d && (n - d) % period == 0 {
                0.5f32.powi(((n - d) / period) as i32)
            } else {
                0.0
            };
            assert_eq!(*out, expected, "delay {d}, step {n}");
        }
    }
}

#[test]
fn at_delay_zero_the_output_feeds_the_very_next_step() {
    let mut network = DelayWithFeedback::new(0, F(0.5), F(4.0));
    assert_eq!(impulse_response(&mut network, 5), vec![1.0, 0.5, 0.25, 0.125, 0.0625]);
}

#[test]
fn every_output_is_the_delayed_input_plus_gain_times_an_earlier_output() {
    let d = 3usize;
    let gain = 0.75f32;
    let mut network = DelayWithFeedback::new(d as i32, F(gain), F(8.0));
    let mut inputs = Vec::new();
    let mut outs: Vec<f32> = Vec::new();
    let mut seed: u32 = 7;
    for n in 0..200 {
        seed = seed.wrapping_mul(1664525).wrapping_add(1013904223);
        let x = ((seed >> 16) as f32) / 65536.0 - 0.5;
        inputs.push(x);
        let out = network.process(F(x)).0;
        if n >= 2 * d + 1 {
            assert_eq!(out, inputs[n - d] + gain * outs[n - 2 * d - 1]);
        } else if n >= d {
            assert_eq!(out, inputs[n - d] + gain * 0.0);
        } else {
            assert_eq!(out, 0.0);
        }
        outs.push(out);
    }
}

#[test]
fn gain_just_below_one_keeps_an_impulse_within_bounds() {
    let mut network = DelayWithFeedback::new(3, F(0.99), F(8.0));
    let mut loudest = 0.0f32;
    for n in 0..10000 {
        let out = network.process(F(if n == 0 { 1.0 } else { 0.0 })).0;
        assert!(out.abs() <= 1.0 / (1.0 - 0.99));
        loudest = loudest.max(out.abs());
    }
    assert_eq!(loudest, 1.0);
}

#[test]
fn gain_just_below_one_keeps_a_steady_input_within_bounds() {
    let mut network = DelayWithFeedback::new(3, F(0.99), F(8.0));
    let mut loudest = 0.0f32;
    for _ in 0..10000 {
        let out = network.process(F(1.0)).0;
        assert!(out.is_finite());
        assert!(out.abs() <= 1.0 / (1.0 - 0.99));
        loudest = loudest.max(out.abs());
    }
    assert!(loudest > 99.0);
}

#[test]
fn gain_of_one_and_more_is_taken_as_it_comes() {
    let mut network = DelayWithFeedback::new(0, F(0.5), F(4.0));
    network.set_feedback(F(2.0));
    assert_eq!(network.feedback(), F(2.0));
    assert_eq!(impulse_response(&mut network, 5), vec![1.0, 2.0, 4.0, 8.0, 16.0]);
    network.set_feedback(F(-1.0));
    assert_eq!(network.feedback(), F(-1.0));
}

#[test]
fn set_feedback_acts_from_the_next_sample() {
    let mut network = DelayWithFeedback::new(0, F(0.5), F(4.0));
    assert_eq!(network.process(F(1.0)), F(1.0));
    network.set_feedback(F(0.25));
    assert_eq!(network.process(F(0.0)), F(0.25));
    assert_eq!(network.process(F(0.0)), F(0.0625));
}

#[test]
fn new_network_is_silent_with_both_lines_at_the_delay() {
    let network = DelayWithFeedback::new(3, F(0.5), F(8.0));
    assert_eq!(network.feedback(), F(0.5));
    assert_eq!(network.initial_delay().len(), 8);
    assert_eq!(network.feedback_delay().len(), 8);
    assert_eq!((network.initial_delay().input(), network.initial_delay().output()), (0, 5));
    assert_eq!((network.feedback_delay().input(), network.feedback_delay().output()), (0, 5));
}

#[test]
fn set_time_retunes_both_lines_alike() {
    let mut network = DelayWithFeedback::new(3, F(0.5), F(8.0));
    network.process(F(0.0));
    network.process(F(0.0));
    network.set_time(5);
    assert_eq!((network.initial_delay().input(), network.initial_delay().output()), (2, 5));
    assert_eq!((network.feedback_delay().input(), network.feedback_delay().output()), (2, 5));
    network.set_time(8 + 1);
    assert_eq!(network.initial_delay().output(), 1);
    assert_eq!(network.feedback_delay().output(), 1);
}

#[test]
fn clear_silences_the_lines_and_keeps_cursors_and_registers() {
    let mut network = DelayWithFeedback::new(1, F(0.5), F(4.0));
    let outs: Vec<f32> = [1.0f32, 2.0, 4.0].iter().map(|x| network.process(F(*x)).0).collect();
    assert_eq!(outs, vec![0.0, 1.0, 2.0]);
    network.clear();
    assert_eq!((network.initial_delay().input(), network.initial_delay().output()), (3, 2));
    assert_eq!((network.feedback_delay().input(), network.feedback_delay().output()), (3, 2));
    assert_eq!(network.feedback(), F(0.5));
    let outs: Vec<f32> = (0..5).map(|_| network.process(F(0.0)).0).collect();
    assert_eq!(outs, vec![0.0, 0.5, 0.0, 0.0, 0.25]);
}

#[test]
fn without_clear_the_lines_keep_ringing() {
    let mut network = DelayWithFeedback::new(1, F(0.5), F(4.0));
    for x in [1.0f32, 2.0, 4.0] {
        network.process(F(x));
    }
    let outs: Vec<f32> = (0..5).map(|_| network.process(F(0.0)).0).collect();
    assert_eq!(outs, vec![4.0, 0.5, 1.0, 2.0, 0.25]);
}

#[test]
fn set_pos_puts_all_four_cursors_on_one_slot() {
    let mut network = DelayWithFeedback::new(3, F(0.5), F(8.0));
    network.process(F(0.0));
    network.set_pos(0);
    assert_eq!((network.initial_delay().input(), network.initial_delay().output()), (0, 0));
    assert_eq!((network.feedback_delay().input(), network.feedback_delay().output()), (0, 0));
    network.set_pos(-2);
    assert_eq!((network.initial_delay().input(), network.initial_delay().output()), (6, 6));
    assert_eq!((network.feedback_delay().input(), network.feedback_delay().output()), (6, 6));
}

#[test]
fn extra_steps_move_one_read_cursor_each() {
    let mut network = DelayWithFeedback::new(3, F(0.5), F(8.0));
    network.increment_out_initial();
    assert_eq!((network.initial_delay().input(), network.initial_delay().output()), (0, 6));
    assert_eq!((network.feedback_delay().input(), network.feedback_delay().output()), (0, 5));
    network.increment_out_feedback();
    network.increment_out_feedback();
    network.increment_out_feedback();
    assert_eq!((network.initial_delay().input(), network.initial_delay().output()), (0, 6));
    assert_eq!((network.feedback_delay().input(), network.feedback_delay().output()), (0, 0));
}

#[test]
fn restart_then_a_lap_of_silence_then_restart_changes_nothing() {
    let mut network = DelayWithFeedback::new(2, F(0.5), F(8.0));
    for _ in 0..20 {
        network.process(F(0.0));
    }
    network.increment_out_initial();
    network.clear();
    network.set_pos(0);
    network.set_time(3);
    let first = (
        network.initial_delay().input(),
        network.initial_delay().output(),
        network.feedback_delay().input(),
        network.feedback_delay().output(),
    );
    assert_eq!(first, (0, 5, 0, 5));
    for _ in 0..8 {
        assert_eq!(network.process(F(0.0)), F(0.0));
    }
    let lapped = (
        network.initial_delay().input(),
        network.initial_delay().output(),
        network.feedback_delay().input(),
        network.feedback_delay().output(),
    );
    assert_eq!(lapped, first);
    network.clear();
    network.set_pos(0);
    network.set_time(3);
    let second = (
        network.initial_delay().input(),
        network.initial_delay().output(),
        network.feedback_delay().input(),
        network.feedback_delay().output(),
    );
    assert_eq!(second, first);
    assert_eq!(impulse_response(&mut network, 5), vec![0.0, 0.0, 0.0, 1.0, 0.0]);
}

#[test]
fn drifting_network_starts_with_both_lines_fifty_nudges_back() {
    let mut network = RoundingErrorDelayWithFeedback::new(3, F(0.5), F(8.0));
    assert_eq!((network.initial_delay().input(), network.initial_delay().output()), (0, 2));
    assert_eq!((network.feedback_delay().input(), network.feedback_delay().output()), (0, 2));
    let mut outs = Vec::new();
    for n in 0..21 {
        outs.push(network.process(F(if n == 0 { 1.0 } else { 0.0 })).0);
    }
    let mut expected = vec![0.0f32; 21];
    expected[6] = 1.0;
    expected[19] = 0.5;
    assert_eq!(outs, expected);
}

#[test]
fn drifting_network_retunes_from_where_its_cursors_stand() {
    let mut network = RoundingErrorDelayWithFeedback::new(0, F(0.5), F(8.0));
    network.set_time(3);
    network.set_time(3);
    assert_eq!(network.initial_delay().output(), 2);
    assert_eq!(network.feedback_delay().output(), 2);
    network.set_feedback(F(0.0));
    let mut outs = Vec::new();
    for n in 0..8 {
        outs.push(network.process(F(if n == 0 { 1.0 } else { 0.0 })).0);
    }
    assert_eq!(outs, vec![0.0, 0.0, 0.0, 0.0, 0.0, 0.0, 1.0, 0.0]);
}

#[test]
fn network_runs_on_fixed_point_samples() {
    let half = Fixed::ratio(1, 2);
    let mut network = DelayWithFeedback::new(1, half, Fixed::ratio(4, 1));
    let mut outs = Vec::new();
    for n in 0..8 {
        outs.push(network.process(Fixed::ratio(if n == 0 { 1 } else { 0 }, 1)).raw);
    }
    assert_eq!(outs, vec![0, 1 << 32, 0, 0, 1 << 31, 0, 0, 1 << 30]);
}

#[test]
fn fixed_point_network_below_unity_gain_stays_within_its_bound() {
    let gain = Fixed::ratio(99, 100);
    let unit = Fixed::ratio(1, 1);
    let bound = 100i64 << 32;
    assert!((unit.raw as i128) << 32 <= (((1i128 << 32) - gain.raw as i128) * bound as i128));
    let mut network = DelayWithFeedback::new(3, gain, Fixed::ratio(8, 1));
    let mut loudest = 0i64;
    for _ in 0..10000 {
        let out = network.process(unit).raw;
        assert!(-bound <= out && out <= bound);
        loudest = loudest.max(out);
    }
    assert!(loudest > 99i64 << 32);
}

#[test]
fn fixed_point_network_stays_within_its_bound_on_inputs_of_either_sign() {
    let gain = Fixed::ratio(3, 4);
    let level = 1i64 << 32;
    let bound = 4i64 << 32;
    let mut network = DelayWithFeedback::new(2, gain, Fixed::ratio(5, 1));
    let mut seed: u32 = 99;
    for _ in 0..5000 {
        seed = seed.wrapping_mul(1664525).wrapping_add(1013904223);
        let raw = (seed as i64) * 2 - level;
        assert!(-level <= raw && raw <= level);
        let out = network.process(Fixed { raw }).raw;
        assert!(-bound <= out && out <= bound);
    }
}

#[test]
fn every_echo_is_the_one_before_times_the_gain() {
    for d in 0..5usize {
        let gain = 0.99f32;
        let mut network = DelayWithFeedback::new(d as i32, F(gain), F(8.0));
        let period = 2 * d + 1;
        let mut echo = 1.0f32;
        let mut echoes = 0;
        for n in 0..10000usize {
            let out = network.process(F(if n == 0 { 1.0 } else { 0.0 })).0;
            assert!(out.is_finite());
            assert!(out.abs() <= 1.0);
            if n >= d && (n - d) % period == 0 {
                assert_eq!(out, echo, "delay {d}, step {n}");
                assert!(out <= 1.0 && (echoes == 0 || out < 1.0));
                echo = gain * echo;
                echoes += 1;
            } else {
                assert_eq!(out, 0.0, "delay {d}, step {n}");
            }
        }
        assert_eq!(echoes, (10000 - d + period - 1) / period);
    }
}

#[test]
fn fixed_point_echoes_are_powers_of_the_gain() {
    let half = Fixed::ratio(1, 2);
    let mut network = DelayWithFeedback::new(2, half, Fixed::ratio(8, 1));
    let mut outs = Vec::new();
    for n in 0..18 {
        outs.push(network.process(Fixed::ratio(if n == 0 { 1 } else { 0 }, 1)).raw);
    }
    let mut expected = vec![0i64; 18];
    expected[2] = 1 << 32;
    expected[7] = 1 << 31;
    expected[12] = 1 << 30;
    expected[17] = 1 << 29;
    assert_eq!(outs, expected);
}

#[test]
fn fixed_point_echoes_fade_and_stay_within_unity() {
    for d in 0..4usize {
        let gain = Fixed::ratio(99, 100);
        let mut network = DelayWithFeedback::new(d as i32, gain, Fixed::ratio(6, 1));
        let period = 2 * d + 1;
        let mut echo = Fixed::ratio(1, 1);
        for n in 0..10000usize {
            let out = network.process(Fixed::ratio(if n == 0 { 1 } else { 0 }, 1));
            assert!(0 <= out.raw && out.raw <= 1 << 32);
            if n >= d && (n - d) % period == 0 {
                assert_eq!(out, echo);
                let next = gain.times(echo);
                assert!(next.raw <= echo.raw);
                echo = next;
            } else {
                assert_eq!(out.raw, 0);
            }
        }
    }
}
