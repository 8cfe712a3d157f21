use run_report::humanize::{humanize_instructions, humanize_size};

fn size_by_floats(bytes: u64) -> String {
    match bytes {
        0..=1023 => format!("t: {}B", bytes),
        1024..=1_048_575 => format!("t: {:.2}KB", bytes as f64 / 1024.0),
        1_048_576..=1_073_741_823 => format!("t: {:.2}MB", bytes as f64 / 1_048_576.0),
        _ => format!("t: {:.2}GB", bytes as f64 / 1_073_741_824.0),
    }
}

fn instructions_by_floats(count: u64) -> String {
    match count {
        0..=999 => format!("t: {}", count),
        1000..=999_999 => format!("t: {}K", count as f64 / 1000.0),
        1_000_000..=999_999_999 => format!("t: {}M", count as f64 / 1_000_000.0),
        _ => format!("t: {}B", count as f64 / 1_000_000_000.0),
    }
}

fn next(state: &mut u64) -> u64 {
    *state = state
        .wrapping_mul(6364136223846793005)
        .wrapping_add(1442695040888963407);
    let mut x = *state;
    x ^= x >> 33;
    x = x.wrapping_mul(0xff51afd7ed558ccd);
    x ^= x >> 33;
    x
}

#[test]
fn size_bands_at_their_edges() {
    assert_eq!(humanize_size("t", 0, u64::MAX), "t: 0B");
    assert_eq!(humanize_size("t", 1023, u64::MAX), "t: 1023B");
    assert_eq!(humanize_size("t", 1024, u64::MAX), "t: 1.00KB");
    assert_eq!(humanize_size("t", 1_048_575, u64::MAX), "t: 1024.00KB");
    assert_eq!(humanize_size("t", 1_048_576, u64::MAX), "t: 1.00MB");
    assert_eq!(humanize_size("t", 1_073_741_823, u64::MAX), "t: 1024.00MB");
    assert_eq!(humanize_size("t", 1_073_741_824, u64::MAX), "t: 1.00GB");
    assert_eq!(humanize_size("t", u64::MAX, u64::MAX), "t: 17179869184.00GB");
}

#[test]
fn size_halves_go_to_the_even_hundredth() {
    assert_eq!(humanize_size("t", 1152, u64::MAX), "t: 1.12KB");
    assert_eq!(humanize_size("t", 1408, u64::MAX), "t: 1.38KB");
    assert_eq!(humanize_size("t", 1029, u64::MAX), "t: 1.00KB");
    assert_eq!(humanize_size("t", 1030, u64::MAX), "t: 1.01KB");
    assert_eq!(humanize_size("t", 128_000, u64::MAX), "t: 125.00KB");
    assert_eq!(humanize_size("t", 20_000, u64::MAX), "t: 19.53KB");
}

#[test]
fn size_agrees_with_float_formatting() {
    let mut state: u64 = 7;
    for bytes in 0..5000u64 {
        assert_eq!(humanize_size("t", bytes, u64::MAX), size_by_floats(bytes));
    }
    for _ in 0..20000 {
        let raw = next(&mut state);
        let bytes = raw >> (next(&mut state) % 64);
        assert_eq!(humanize_size("t", bytes, u64::MAX), size_by_floats(bytes), "{}", bytes);
    }
    for shift in 0..64u32 {
        for delta in 0..3u64 {
            let top = 1u64 << shift;
            for bytes in [top.wrapping_sub(delta), top.wrapping_add(delta)] {
                assert_eq!(humanize_size("t", bytes, u64::MAX), size_by_floats(bytes), "{}", bytes);
            }
        }
    }
}

#[test]
fn instruction_bands_at_their_edges() {
    assert_eq!(humanize_instructions("t", 0, u64::MAX), "t: 0");
    assert_eq!(humanize_instructions("t", 999, u64::MAX), "t: 999");
    assert_eq!(humanize_instructions("t", 1000, u64::MAX), "t: 1K");
    assert_eq!(humanize_instructions("t", 1001, u64::MAX), "t: 1.001K");
    assert_eq!(humanize_instructions("t", 999_999, u64::MAX), "t: 999.999K");
    assert_eq!(humanize_instructions("t", 1_000_000, u64::MAX), "t: 1M");
    assert_eq!(humanize_instructions("t", 2_500_000, u64::MAX), "t: 2.5M");
    assert_eq!(humanize_instructions("t", 11_000_000, u64::MAX), "t: 11M");
    assert_eq!(humanize_instructions("t", 999_999_999, u64::MAX), "t: 999.999999M");
    assert_eq!(humanize_instructions("t", 1_000_000_000, u64::MAX), "t: 1B");
    assert_eq!(humanize_instructions("t", 1_000_000_001, u64::MAX), "t: 1.000000001B");
}

#[test]
fn instructions_agree_with_float_formatting() {
    let mut state: u64 = 11;
    for count in 0..5000u64 {
        assert_eq!(humanize_instructions("t", count, u64::MAX), instructions_by_floats(count));
    }
    for _ in 0..20000 {
        let raw = next(&mut state);
        let count = raw >> (next(&mut state) % 64);
        assert_eq!(
            humanize_instructions("t", count, u64::MAX),
            instructions_by_floats(count),
            "{}",
            count
        );
    }
    for _ in 0..20000 {
        let count = next(&mut state);
        assert_eq!(
            humanize_instructions("t", count, u64::MAX),
            instructions_by_floats(count),
            "{}",
            count
        );
    }
    for shift in 0..64u32 {
        for delta in 0..3u64 {
            let top = 1u64 << shift;
            for count in [top.wrapping_sub(delta), top.wrapping_add(delta)] {
                assert_eq!(
                    humanize_instructions("t", count, u64::MAX),
                    instructions_by_floats(count),
                    "{}",
                    count
                );
            }
        }
    }
}

#[test]
fn instructions_where_two_decimals_are_equally_near() {
    // quotients of the form odd/128 in the top binade lie halfway between two six-digit decimals
    let mut odd: u64 = (1u64 << 41) + 1;
    let mut seen = 0;
    while seen < 2000 && odd < (1u64 << 42) {
        let centre = (odd as u128) * 7_812_500;
        if centre < u64::MAX as u128 {
            let base = centre as u64;
            for count in [base, base - 1024, base + 1024, base - 1900, base + 1900] {
                assert_eq!(
                    humanize_instructions("t", count, u64::MAX),
                    instructions_by_floats(count),
                    "{}",
                    count
                );
            }
            seen += 1;
        }
        odd += 2 * 1_000_003;
    }
    assert!(seen > 100);
}

#[test]
fn instructions_are_written_out_without_zeros_at_the_end() {
    assert_eq!(humanize_instructions("t", 1_500, u64::MAX), "t: 1.5K");
    assert_eq!(humanize_instructions("t", 1_230_000, u64::MAX), "t: 1.23M");
    assert_eq!(humanize_instructions("t", 10_010_000, u64::MAX), "t: 10.01M");
    assert_eq!(humanize_instructions("t", 123_456_789_000, u64::MAX), "t: 123.456789B");
    assert_eq!(
        humanize_instructions("t", 1_125_899_906_842_623, u64::MAX),
        "t: 1125899.906842623B"
    );
    assert_eq!(humanize_instructions("t", u64::MAX, u64::MAX), "t: 18446744073.709553B");
}

#[test]
fn sizes_are_rounded_to_the_nearest_hundredth() {
    assert_eq!(humanize_size("t", 1024 + 5, u64::MAX), "t: 1.00KB");
    assert_eq!(humanize_size("t", 1024 + 6, u64::MAX), "t: 1.01KB");
    assert_eq!(humanize_size("t", 1_572_864, u64::MAX), "t: 1.50MB");
    assert_eq!(humanize_size("t", 5_000_000_000, u64::MAX), "t: 4.66GB");
}
