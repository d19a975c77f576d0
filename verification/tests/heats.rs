use codex_usage_tray::heat::heat_intensity;

fn by_floats(value: u64, max: u64) -> u8 {
    if value == 0 || max == 0 {
        0
    } else {
        ((value as f64 / max as f64) * 4.0).ceil().clamp(1.0, 4.0) as u8
    }
}

#[test]
fn intensities() {
    assert_eq!(heat_intensity(0, 0), 0);
    assert_eq!(heat_intensity(0, 9), 0);
    assert_eq!(heat_intensity(9, 0), 0);
    assert_eq!(heat_intensity(1, 1_000), 1);
    assert_eq!(heat_intensity(25, 100), 1);
    assert_eq!(heat_intensity(26, 100), 2);
    assert_eq!(heat_intensity(50, 100), 2);
    assert_eq!(heat_intensity(51, 100), 3);
    assert_eq!(heat_intensity(75, 100), 3);
    assert_eq!(heat_intensity(76, 100), 4);
    assert_eq!(heat_intensity(100, 100), 4);
    assert_eq!(heat_intensity(200, 100), 4);
    assert_eq!(heat_intensity(u64::MAX, u64::MAX), 4);
}

#[test]
fn small_values_agree_with_floats() {
    for max in 0..300 {
        for value in 0..400 {
            assert_eq!(heat_intensity(value, max), by_floats(value, max), "{} {}", value, max);
        }
    }
}

#[test]
fn great_values_agree_with_floats() {
    let mut state: u64 = 0x9e37_79b9_7f4a_7c15;
    for _ in 0..20_000 {
        state = state.wrapping_mul(6364136223846793005).wrapping_add(1442695040888963407);
        let max = state >> (state % 12);
        for quarter in 1..5u128 {
            let near = (max as u128 * quarter / 4) as u64;
            for shift in [0u64, 1, 2, 511, 512, 513, 1023, 1024, 1025, 2048, 2049] {
                for value in [near.wrapping_sub(shift), near.wrapping_add(shift)] {
                    assert_eq!(heat_intensity(value, max), by_floats(value, max), "{} {}", value, max);
                }
            }
        }
    }
}

#[test]
fn greater_values_are_no_weaker() {
    for max in [7, 1_000, 1 << 60, u64::MAX] {
        let mut last = 0;
        for step in 0..=1_000u64 {
            let value = (max as u128 * step as u128 / 1_000) as u64;
            let now = heat_intensity(value, max);
            assert!(last <= now);
            last = now;
        }
        assert_eq!(last, 4);
    }
}

#[test]
fn greater_maximum_is_no_stronger() {
    for value in [1, 99, 1 << 55, u64::MAX] {
        let mut last = 4;
        for step in 1..=1_000u64 {
            let max = (u64::MAX as u128 * step as u128 / 1_000) as u64 >> (63 - step % 64);
            assert_eq!(heat_intensity(value, max), by_floats(value, max));
        }
        for max in [1, value / 2 + 1, value, value.saturating_add(value / 3), value.saturating_mul(2), u64::MAX] {
            let now = heat_intensity(value, max);
            assert!(now <= last);
            last = now;
        }
    }
}
