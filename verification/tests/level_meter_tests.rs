use auto_audio_recorder::level_meter::{calculate_rms, integer_sqrt, root_mean_square, LevelMeter};

#[test]
fn an_empty_chunk_has_level_zero() {
    assert_eq!(LevelMeter::new().measure(&vec![]), 0);
    assert_eq!(calculate_rms(&vec![]), 0);
    assert_eq!(root_mean_square(&vec![]), 0);
}

#[test]
fn a_constant_chunk_has_its_magnitude_as_level() {
    assert_eq!(LevelMeter::new().measure(&vec![16384; 480]), 16384);
    assert_eq!(LevelMeter::new().measure(&vec![-16384; 480]), 16384);
    assert_eq!(LevelMeter::new().measure(&vec![32768, -32768]), 32768);
}

#[test]
fn the_level_is_the_rounded_down_root_of_the_mean_square() {
    // (9 + 16) / 2 = 12, and the root of 12 is 3.46...
    assert_eq!(LevelMeter::new().measure(&vec![3, 4]), 3);
    // (0 + 0 + 0 + 100) / 4 = 25
    assert_eq!(LevelMeter::new().measure(&vec![0, 0, 0, 10]), 5);
    assert_eq!(LevelMeter::new().measure(&vec![1, 0, 0]), 0);
}

#[test]
fn the_level_is_limited_to_full_scale() {
    assert_eq!(LevelMeter::new().measure(&vec![100_000]), 32768);
    assert_eq!(LevelMeter::new().measure(&vec![i32::MIN, i32::MAX]), 32768);
    assert_eq!(root_mean_square(&vec![100_000]), 100_000);
    assert_eq!(root_mean_square(&vec![i32::MIN]), 2_147_483_648);
}

#[test]
fn the_meter_is_deterministic() {
    let chunk: Vec<i32> = (0..1000).map(|i| (i * 37 % 2001) - 1000).collect();
    let meter = LevelMeter::new();
    assert_eq!(meter.measure(&chunk), meter.measure(&chunk));
}

#[test]
fn integer_sqrt_rounds_down() {
    assert_eq!(integer_sqrt(0), 0);
    assert_eq!(integer_sqrt(1), 1);
    assert_eq!(integer_sqrt(3), 1);
    assert_eq!(integer_sqrt(4), 2);
    assert_eq!(integer_sqrt(15), 3);
    assert_eq!(integer_sqrt(16), 4);
    assert_eq!(integer_sqrt(17), 4);
    assert_eq!(integer_sqrt(1 << 62), 1 << 31);
    assert_eq!(integer_sqrt(u64::MAX), u32::MAX);
    assert_eq!(integer_sqrt((u32::MAX as u64) * (u32::MAX as u64)), u32::MAX);
    assert_eq!(integer_sqrt((u32::MAX as u64) * (u32::MAX as u64) - 1), u32::MAX - 1);
}

#[test]
fn the_displayed_level_is_the_root_mean_square_itself() {
    // amplitude 0.25 on every sample gives the level 0.25
    assert_eq!(calculate_rms(&vec![8192, -8192, 8192, -8192]), 8192);
    assert_eq!(calculate_rms(&vec![1000]), 1000);
    assert_eq!(calculate_rms(&vec![3, 4]), 3);
    assert_eq!(calculate_rms(&vec![20000, -20000]), 20000);
    assert_eq!(calculate_rms(&vec![40000, -40000]), 32768);
    let chunk: Vec<i32> = (0..500).map(|i| (i * 53 % 4001) - 2000).collect();
    assert_eq!(calculate_rms(&chunk), LevelMeter::new().measure(&chunk));
}
