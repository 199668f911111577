use satin_demoverb::{Delay, RoundingErrorDelay, Sample};

#[derive(Clone, Copy, Debug, PartialEq)]
struct F(f32);

impl Sample for F {
    fn ratio_spec(num: u32, den: u32) -> Self {
        F(num as f32 / den as f32)
    }

    fn plus_spec(self, rhs: Self) -> Self {
        F(self.0 + rhs.0)
    }

    fn minus_spec(self, rhs: Self) -> Self {
        F(self.0 - rhs.0)
    }

    fn times_spec(self, rhs: Self) -> Self {
        F(self.0 * rhs.0)
    }

    fn halved_spec(self) -> Self {
        F(self.0 / 2.0)
    }

    fn lt_spec(self, rhs: Self) -> bool {
        self.0 < rhs.0
    }

    fn le_spec(self, rhs: Self) -> bool {
        self.0 <= rhs.0
    }

    fn to_index_spec(self) -> i32 {
        self.0 as i32
    }

    fn ratio(num: u32, den: u32) -> Self {
        F(num as f32 / den as f32)
    }

    fn plus(self, rhs: Self) -> Self {
        F(self.0 + rhs.0)
    }

    fn minus(self, rhs: Self) -> Self {
        F(self.0 - rhs.0)
    }

    fn times(self, rhs: Self) -> Self {
        F(self.0 * rhs.0)
    }

    fn halved(self) -> Self {
        F(self.0 / 2.0)
    }

    fn lt(self, rhs: Self) -> bool {
        self.0 < rhs.0
    }

    fn le(self, rhs: Self) -> bool {
        self.0 <= rhs.0
    }

    fn to_index(self) -> i32 {
        self.0 as i32
    }
}

fn impulse_response(line: &mut Delay<F>, steps: usize) -> Vec<f32> {
    let mut outs = Vec::new();
    for n in 0..steps {
        outs.push(line.process(F(if n == 0 { 1.0 } else { 0.0 })).0);
    }
    outs
}

#[test]
fn impulse_returns_after_the_delay() {
    let mut line: Delay<F> = Delay::new(3, F(8.0));
    assert_eq!(line.len(), 8);
    assert_eq!(impulse_response(&mut line, 6), vec![0.0, 0.0, 0.0, 1.0, 0.0, 0.0]);
}

#[test]
fn impulse_returns_after_every_delay_the_ring_can_hold() {
    for d in 0..8 {
        let mut line: Delay<F> = Delay::new(d, F(8.0));
        let outs = impulse_response(&mut line, 20);
        for (n, out) in outs.iter().enumerate() {
            assert_eq!(*out, if n == d as usize { 1.0 } else { 0.0 }, "delay {d}, step {n}");
        }
    }
}

#[test]
fn impulse_returns_wherever_in_the_ring_it_was_written() {
    for start in 0..5 {
        for d in 0..5 {
            let mut line: Delay<F> = Delay::new(d, F(5.0));
            for _ in 0..start {
                line.process(F(0.0));
            }
            let outs = impulse_response(&mut line, 12);
            for (n, out) in outs.iter().enumerate() {
                assert_eq!(*out, if n == d as usize { 1.0 } else { 0.0 });
            }
        }
    }
}

#[test]
fn delay_of_zero_gives_each_sample_straight_back() {
    let mut line: Delay<F> = Delay::new(0, F(4.0));
    for k in 0..10 {
        assert_eq!(line.process(F(k as f32)), F(k as f32));
    }
}

#[test]
fn every_sample_comes_out_delayed() {
    let mut line: Delay<F> = Delay::new(2, F(4.0));
    let mut outs = Vec::new();
    for k in 1..=9 {
        outs.push(line.process(F(k as f32)).0);
    }
    assert_eq!(outs, vec![0.0, 0.0, 1.0, 2.0, 3.0, 4.0, 5.0, 6.0, 7.0]);
}

#[test]
fn retuning_mid_stream_reads_the_new_delay_at_once() {
    let mut line: Delay<F> = Delay::new(1, F(4.0));
    assert_eq!(line.process(F(10.0)), F(0.0));
    assert_eq!(line.process(F(20.0)), F(10.0));
    assert_eq!(line.process(F(30.0)), F(20.0));
    line.set_time(3);
    assert_eq!(line.process(F(40.0)), F(10.0));
    assert_eq!(line.process(F(50.0)), F(20.0));
    line.set_time(0);
    assert_eq!(line.process(F(60.0)), F(60.0));
    line.set_time(2);
    assert_eq!(line.process(F(70.0)), F(50.0));
}

#[test]
fn impulse_returns_when_retuned_across_the_end_of_the_ring() {
    let mut line: Delay<F> = Delay::new(1, F(4.0));
    line.process(F(0.0));
    line.process(F(0.0));
    line.process(F(0.0));
    assert_eq!((line.input(), line.output()), (3, 2));
    assert_eq!(line.process(F(1.0)), F(0.0));
    assert_eq!((line.input(), line.output()), (0, 3));
    assert_eq!(line.process(F(0.0)), F(1.0));
    line.set_time(3);
    assert_eq!((line.input(), line.output()), (1, 2));
    assert_eq!(line.process(F(0.0)), F(0.0));
    assert_eq!(line.process(F(0.0)), F(1.0));
    assert_eq!(line.process(F(0.0)), F(0.0));
}

#[test]
fn delay_beyond_the_ring_aliases_to_a_shorter_one() {
    let mut long: Delay<F> = Delay::new(8 + 2, F(8.0));
    let mut short: Delay<F> = Delay::new(2, F(8.0));
    assert_eq!(long.output(), short.output());
    assert_eq!(impulse_response(&mut long, 12), impulse_response(&mut short, 12));
    let mut full: Delay<F> = Delay::new(8, F(8.0));
    assert_eq!(full.output(), 0);
    assert_eq!(full.process(F(1.0)), F(1.0));
}

#[test]
fn negative_delay_counts_around_the_ring() {
    let mut line: Delay<F> = Delay::new(-1, F(8.0));
    assert_eq!((line.input(), line.output()), (0, 1));
    assert_eq!(impulse_response(&mut line, 9), vec![0.0, 0.0, 0.0, 0.0, 0.0, 0.0, 0.0, 1.0, 0.0]);
}

#[test]
fn set_time_takes_the_ends_of_the_time_range() {
    let mut line: Delay<F> = Delay::new(0, F(7.0));
    line.process(F(0.0));
    line.set_time(i32::MIN);
    assert_eq!(line.output(), ((1i64 + 2147483648i64) % 7) as usize);
    line.set_time(i32::MAX);
    assert_eq!(line.output(), (1i64 - 2147483647i64).rem_euclid(7) as usize);
    assert_eq!(line.input(), 1);
}

#[test]
fn cursors_stay_inside_the_ring_through_any_run_of_calls() {
    let mut line: Delay<F> = Delay::new(3, F(6.0));
    let mut drifting: RoundingErrorDelay<F> = RoundingErrorDelay::new(3, F(6.0));
    let mut seed: u32 = 12345;
    for _ in 0..2000 {
        seed = seed.wrapping_mul(1664525).wrapping_add(1013904223);
        let time = (seed >> 8) as i32 - (1 << 23);
        match seed % 4 {
            0 => {
                line.set_time(time);
                drifting.set_time(time);
            }
            1 => line.increment_out(),
            2 => line.set_pos(time),
            _ => {
                line.process(F(1.0));
                drifting.process(F(1.0));
            }
        }
        assert!(line.input() < 6 && line.output() < 6);
        assert!(drifting.input() < 6 && drifting.output() < 6);
        assert_eq!(line.len(), 6);
        assert_eq!(drifting.len(), 6);
    }
}

#[test]
fn line_has_as_many_slots_as_the_sample_rate_has_whole_samples() {
    let line: Delay<F> = Delay::new(0, F(8.9));
    assert_eq!(line.len(), 8);
    let line: Delay<F> = Delay::new(0, F(1.0));
    assert_eq!(line.len(), 1);
}

#[test]
fn clear_forgets_what_the_line_held() {
    let mut line: Delay<F> = Delay::new(2, F(4.0));
    line.process(F(1.0));
    line.process(F(2.0));
    line.clear();
    assert_eq!((line.input(), line.output()), (2, 0));
    assert_eq!(line.process(F(3.0)), F(0.0));
    assert_eq!(line.process(F(4.0)), F(0.0));
    assert_eq!(line.process(F(5.0)), F(3.0));
}

#[test]
fn extra_step_of_the_read_cursor_shortens_the_delay_by_one() {
    let mut line: Delay<F> = Delay::new(3, F(8.0));
    line.increment_out();
    assert_eq!(impulse_response(&mut line, 5), vec![0.0, 0.0, 1.0, 0.0, 0.0]);
}

#[test]
fn set_pos_leaves_a_line_at_delay_zero() {
    let mut line: Delay<F> = Delay::new(3, F(8.0));
    line.process(F(0.0));
    line.set_pos(0);
    assert_eq!((line.input(), line.output()), (0, 0));
    assert_eq!(line.process(F(1.0)), F(1.0));
}

#[test]
fn drifting_line_starts_fifty_nudges_back() {
    let line: RoundingErrorDelay<F> = RoundingErrorDelay::new(3, F(8.0));
    assert_eq!(line.len(), 8);
    assert_eq!(line.input(), 0);
    assert_eq!(line.output(), 2);
    let line: RoundingErrorDelay<F> = RoundingErrorDelay::new(1, F(7.0));
    assert_eq!(line.output(), 6);
    let line: RoundingErrorDelay<F> = RoundingErrorDelay::new(0, F(7.0));
    assert_eq!(line.output(), 0);
    let line: RoundingErrorDelay<F> = RoundingErrorDelay::new(-1, F(7.0));
    assert_eq!(line.output(), 1);
    let line: RoundingErrorDelay<F> = RoundingErrorDelay::new(i32::MIN, F(7.0));
    assert_eq!(line.output(), ((50i64 * 2147483648i64) % 7) as usize);
}

#[test]
fn drifting_line_delays_by_what_the_nudges_add_up_to() {
    let mut line: RoundingErrorDelay<F> = RoundingErrorDelay::new(3, F(8.0));
    let mut outs = Vec::new();
    for n in 0..9 {
        outs.push(line.process(F(if n == 0 { 1.0 } else { 0.0 })).0);
    }
    assert_eq!(outs, vec![0.0, 0.0, 0.0, 0.0, 0.0, 0.0, 1.0, 0.0, 0.0]);
}

#[test]
fn drifting_retune_moves_from_where_the_read_cursor_stands() {
    let mut line: RoundingErrorDelay<F> = RoundingErrorDelay::new(0, F(8.0));
    line.set_time(1);
    assert_eq!(line.output(), 7);
    line.set_time(1);
    assert_eq!(line.output(), 6);
    line.process(F(0.0));
    assert_eq!((line.input(), line.output()), (1, 7));
    line.set_time(2);
    assert_eq!((line.input(), line.output()), (1, 5));
    line.set_time(-6);
    assert_eq!((line.input(), line.output()), (1, 3));
    line.set_time(16);
    assert_eq!((line.input(), line.output()), (1, 3));
}

#[test]
fn the_two_retuning_strategies_part_ways() {
    let mut placed: Delay<F> = Delay::new(0, F(8.0));
    let mut nudged: RoundingErrorDelay<F> = RoundingErrorDelay::new(0, F(8.0));
    for _ in 0..3 {
        placed.set_time(2);
        nudged.set_time(2);
    }
    assert_eq!(placed.output(), 6);
    assert_eq!(nudged.output(), 2);
}
