use auto_audio_recorder::sample::{
    apply_gain, clamp_gain, clamp_sample, mean_sample, quantize, quantize_chunk, FULL_SCALE, MAX_GAIN,
    PCM_MAX, UNITY_GAIN,
};

#[test]
fn full_scale_quantizes_to_the_largest_pcm_value() {
    assert_eq!(quantize(FULL_SCALE), 32767);
    assert_eq!(quantize(-FULL_SCALE), -32767);
    assert_eq!(PCM_MAX, 32767);
}

#[test]
fn quantize_rounds_toward_zero() {
    assert_eq!(quantize(0), 0);
    assert_eq!(quantize(1), 0);
    assert_eq!(quantize(-1), 0);
    assert_eq!(quantize(2), 1);
    assert_eq!(quantize(-2), -1);
    assert_eq!(quantize(16384), 16383);
    assert_eq!(quantize(-16384), -16383);
    assert_eq!(quantize(32767), 32766);
}

#[test]
fn out_of_range_samples_are_clamped_not_refused() {
    assert_eq!(quantize(100_000), 32767);
    assert_eq!(quantize(-100_000), -32767);
    assert_eq!(quantize(i32::MAX), 32767);
    assert_eq!(quantize(i32::MIN), -32767);
    assert_eq!(clamp_sample(40_000), 32768);
    assert_eq!(clamp_sample(-40_000), -32768);
    assert_eq!(clamp_sample(-5), -5);
}

#[test]
fn quantize_chunk_keeps_the_order() {
    assert_eq!(quantize_chunk(&vec![0, 32768, -32768, 16384, 70000]), vec![0, 32767, -32767, 16383, 32767]);
    assert_eq!(quantize_chunk(&vec![]), Vec::<i16>::new());
}

#[test]
fn gain_is_in_thousandths_and_rounds_toward_zero() {
    assert_eq!(apply_gain(1000, UNITY_GAIN), 1000);
    assert_eq!(apply_gain(1000, 1500), 1500);
    assert_eq!(apply_gain(1000, 0), 0);
    assert_eq!(apply_gain(-3, 500), -1);
    assert_eq!(apply_gain(3, 500), 1);
    assert_eq!(apply_gain(-1001, 2000), -2002);
}

#[test]
fn gain_saturates_at_the_range_of_a_sample() {
    assert_eq!(apply_gain(i32::MAX, 2000), i32::MAX);
    assert_eq!(apply_gain(i32::MIN, 2000), i32::MIN);
    assert_eq!(apply_gain(i32::MAX, u32::MAX), i32::MAX);
    assert_eq!(apply_gain(i32::MIN, u32::MAX), i32::MIN);
}

#[test]
fn gains_are_limited_to_twice_unity() {
    assert_eq!(clamp_gain(0), 0);
    assert_eq!(clamp_gain(1234), 1234);
    assert_eq!(clamp_gain(2000), MAX_GAIN);
    assert_eq!(clamp_gain(2001), MAX_GAIN);
    assert_eq!(clamp_gain(u32::MAX), MAX_GAIN);
}

#[test]
fn the_mean_of_two_samples_rounds_toward_zero() {
    assert_eq!(mean_sample(3, 4), 3);
    assert_eq!(mean_sample(-3, -4), -3);
    assert_eq!(mean_sample(-3, 4), 0);
    assert_eq!(mean_sample(10, 20), 15);
    assert_eq!(mean_sample(i32::MAX, i32::MAX), i32::MAX);
    assert_eq!(mean_sample(i32::MIN, i32::MIN), i32::MIN);
    assert_eq!(mean_sample(i32::MAX, i32::MIN), 0);
}
