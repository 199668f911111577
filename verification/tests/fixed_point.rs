use satin_demoverb::{Fixed, Sample};

#[test]
fn ratio_counts_steps_of_two_to_the_minus_32() {
    assert_eq!(Fixed::ratio(0, 1).raw, 0);
    assert_eq!(Fixed::ratio(1, 1).raw, 1 << 32);
    assert_eq!(Fixed::ratio(1, 2).raw, 1 << 31);
    assert_eq!(Fixed::ratio(3, 1).raw, 3 << 32);
    assert_eq!(Fixed::ratio(3, 4).raw, 3 << 30);
    assert_eq!(Fixed::ratio(1, 3).raw, 1431655765);
    assert_eq!(Fixed::ratio(9, 10).raw, 3865470566);
    assert_eq!(Fixed::ratio(0, 7).raw, 0);
}

#[test]
fn ratio_saturates_at_the_top() {
    assert_eq!(Fixed::ratio(u32::MAX, 1).raw, i64::MAX);
    assert_eq!(Fixed::ratio(1 << 31, 1).raw, i64::MAX);
    assert_eq!(Fixed::ratio((1 << 31) - 1, 1).raw, ((1i64 << 31) - 1) << 32);
    assert_eq!(Fixed::ratio(u32::MAX, u32::MAX).raw, 1 << 32);
}

#[test]
fn plus_and_minus_saturate() {
    let top = Fixed { raw: i64::MAX };
    let bottom = Fixed { raw: i64::MIN };
    let step = Fixed { raw: 1 };
    assert_eq!(Fixed { raw: 5 }.plus(Fixed { raw: -7 }).raw, -2);
    assert_eq!(Fixed { raw: 5 }.minus(Fixed { raw: -7 }).raw, 12);
    assert_eq!(top.plus(step), top);
    assert_eq!(top.plus(top), top);
    assert_eq!(bottom.minus(step), bottom);
    assert_eq!(bottom.plus(bottom), bottom);
    assert_eq!(top.minus(bottom), top);
    assert_eq!(bottom.minus(top), bottom);
    assert_eq!(top.plus(bottom).raw, -1);
    assert_eq!(Fixed { raw: 0 }.minus(bottom), top);
}

#[test]
fn times_cuts_towards_zero() {
    let half = Fixed::ratio(1, 2);
    let minus_half = Fixed { raw: -(1 << 31) };
    assert_eq!(half.times(half).raw, 1 << 30);
    assert_eq!(minus_half.times(half).raw, -(1 << 30));
    assert_eq!(minus_half.times(minus_half).raw, 1 << 30);
    assert_eq!(Fixed { raw: 1 }.times(Fixed { raw: 1 }).raw, 0);
    assert_eq!(Fixed { raw: -1 }.times(Fixed { raw: 1 }).raw, 0);
    assert_eq!(Fixed { raw: 3 }.times(half).raw, 1);
    assert_eq!(Fixed { raw: -3 }.times(half).raw, -1);
    assert_eq!(Fixed { raw: 0 }.times(Fixed { raw: i64::MIN }).raw, 0);
    assert_eq!(Fixed::ratio(3, 1).times(Fixed::ratio(5, 1)), Fixed::ratio(15, 1));
}

#[test]
fn times_saturates() {
    let top = Fixed { raw: i64::MAX };
    let bottom = Fixed { raw: i64::MIN };
    assert_eq!(top.times(top), top);
    assert_eq!(bottom.times(bottom), top);
    assert_eq!(top.times(bottom), bottom);
    assert_eq!(bottom.times(Fixed::ratio(1, 1)), bottom);
    assert_eq!(top.times(Fixed::ratio(1, 1)), top);
    assert_eq!(Fixed::ratio(65536, 1).times(Fixed::ratio(65536, 1)), top);
    assert_eq!(bottom.times(Fixed::ratio(1, 2)).raw, -(1 << 62));
}

#[test]
fn halved_cuts_towards_zero() {
    assert_eq!(Fixed { raw: 6 }.halved().raw, 3);
    assert_eq!(Fixed { raw: 7 }.halved().raw, 3);
    assert_eq!(Fixed { raw: -7 }.halved().raw, -3);
    assert_eq!(Fixed { raw: -1 }.halved().raw, 0);
    assert_eq!(Fixed { raw: 0 }.halved().raw, 0);
    assert_eq!(Fixed { raw: i64::MIN }.halved().raw, -(1 << 62));
    assert_eq!(Fixed { raw: i64::MAX }.halved().raw, (1 << 62) - 1);
}

#[test]
fn order_goes_by_the_raw_count() {
    let low = Fixed { raw: -1 };
    let high = Fixed { raw: 1 };
    assert!(low.lt(high));
    assert!(!high.lt(low));
    assert!(!low.lt(low));
    assert!(low.le(high));
    assert!(low.le(low));
    assert!(!high.le(low));
}

#[test]
fn to_index_is_the_whole_part_cut_towards_zero() {
    assert_eq!(Fixed::ratio(11, 4).to_index(), 2);
    assert_eq!(Fixed { raw: -(11 << 30) }.to_index(), -2);
    assert_eq!(Fixed::ratio(3, 1).to_index(), 3);
    assert_eq!(Fixed::ratio(1, 2).to_index(), 0);
    assert_eq!(Fixed { raw: -1 }.to_index(), 0);
    assert_eq!(Fixed { raw: i64::MAX }.to_index(), i32::MAX);
    assert_eq!(Fixed { raw: i64::MIN }.to_index(), i32::MIN);
    assert_eq!(Fixed::ratio(44100, 1).to_index(), 44100);
}

#[test]
fn silence_and_unity_behave_as_nought_and_one() {
    let silence = Fixed::ratio(0, 1);
    let unity = Fixed::ratio(1, 1);
    for raw in [0i64, 1, -1, 12345, -(1 << 40), i64::MAX, i64::MIN] {
        let x = Fixed { raw };
        assert_eq!(silence.plus(x), x);
        assert_eq!(x.plus(silence), x);
        assert_eq!(x.minus(silence), x);
        assert_eq!(x.minus(x), silence);
        assert_eq!(silence.times(x), silence);
        assert_eq!(x.times(silence), silence);
        assert_eq!(unity.times(x), x);
        assert_eq!(x.times(unity), x);
        assert_eq!(silence.plus(x.times(silence)), silence);
    }
    assert_eq!(silence.halved(), silence);
}

#[test]
fn half_of_double_is_the_sample_while_the_sum_stays_in_range() {
    for raw in [0i64, 3, -3, (1 << 62) - 1, -(1 << 62)] {
        let x = Fixed { raw };
        assert_eq!(x.plus(x).halved(), x);
    }
    let edge = Fixed { raw: 1 << 62 };
    assert_eq!(edge.plus(edge).halved().raw, (1 << 62) - 1);
}
