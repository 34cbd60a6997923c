use hyperbox::rounding::{find_length_share, find_percentage};
use hyperbox::screen::progress_width;
use hyperbox::state::Progress;
use hyperbox::units::{compute_speed_text, decimal_text, format_bytes};

fn float_format_bytes(bytes: usize) -> String {
    if bytes == 0 {
        return "0 Bytes".to_string();
    }
    let sizes = ["Bytes", "KB", "MB", "GB", "TB"];
    let mut size = bytes as f64;
    let mut idx = 0usize;
    while size >= 1024_f64 && idx < sizes.len() - 1 {
        size /= 1024_f64;
        idx += 1;
    }
    format!("{:.2} {}", size, sizes[idx])
}

struct Numbers(u64);

impl Numbers {
    fn next(&mut self) -> u64 {
        self.0 ^= self.0 << 13;
        self.0 ^= self.0 >> 7;
        self.0 ^= self.0 << 17;
        self.0
    }
}

#[test]
fn sizes_have_two_decimal_places() {
    assert_eq!(format_bytes(0), "0 Bytes");
    assert_eq!(format_bytes(1), "1.00 Bytes");
    assert_eq!(format_bytes(1023), "1023.00 Bytes");
    assert_eq!(format_bytes(1024), "1.00 KB");
    assert_eq!(format_bytes(1536), "1.50 KB");
    assert_eq!(format_bytes(1048576), "1.00 MB");
    assert_eq!(format_bytes(5 * 1024 * 1024 * 1024), "5.00 GB");
    assert_eq!(format_bytes(3 << 40), "3.00 TB");
    assert_eq!(format_bytes(7000 << 40), "7000.00 TB");
}

#[test]
fn sizes_halfway_between_two_decimals_go_to_the_even_one() {
    assert_eq!(format_bytes(1152), "1.12 KB");
    assert_eq!(format_bytes(1408), "1.38 KB");
}

#[test]
fn sizes_can_round_up_to_the_next_unit() {
    assert_eq!(format_bytes(1024 * 1024 - 1), "1024.00 KB");
}

#[test]
fn sizes_agree_with_floating_point() {
    for bytes in 0..200_000usize {
        assert_eq!(format_bytes(bytes), float_format_bytes(bytes), "{}", bytes);
    }
    let mut numbers = Numbers(0x9E37_79B9_7F4A_7C15);
    for i in 0..200_000u32 {
        let bytes = (numbers.next() >> (i % 64)) as usize;
        assert_eq!(format_bytes(bytes), float_format_bytes(bytes), "{}", bytes);
    }
    for shift in 0..64u32 {
        for delta in 0..40u64 {
            let up = (1u64 << shift).wrapping_add(delta) as usize;
            let down = (1u64 << shift).wrapping_sub(delta) as usize;
            assert_eq!(format_bytes(up), float_format_bytes(up), "{}", up);
            assert_eq!(format_bytes(down), float_format_bytes(down), "{}", down);
        }
    }
    assert_eq!(format_bytes(usize::MAX), float_format_bytes(usize::MAX));
}

fn float_percentage(done: usize, total: usize) -> String {
    let progress = done as f32 / total as f32;
    format!("{}", (progress * 100.0).round())
}

fn float_width(done: usize, total: usize) -> u32 {
    let progress = done as f32 / total as f32;
    if progress <= 0.0 {
        0
    } else {
        ((progress.clamp(0.0, 1.0) * 240.0).round() as u32).max(2)
    }
}

#[test]
fn shares_of_small_totals_agree_with_floating_point() {
    for total in 1..700usize {
        for done in 0..total + 1 {
            assert_eq!(
                decimal_text(find_percentage(done, total)),
                float_percentage(done, total)
            );
            assert_eq!(
                progress_width(Progress { done, total }),
                float_width(done, total)
            );
        }
    }
}

#[test]
fn shares_of_large_totals_agree_with_floating_point() {
    let mut numbers = Numbers(0xD1B5_4A32_D192_ED03);
    for i in 0..200_000u32 {
        let total = (numbers.next() >> (i % 63)) as usize | 1;
        let done = numbers.next() as usize % total;
        assert_eq!(
            decimal_text(find_percentage(done, total)),
            float_percentage(done, total),
            "{} of {}",
            done,
            total
        );
        assert_eq!(
            progress_width(Progress { done, total }),
            float_width(done, total),
            "{} of {}",
            done,
            total
        );
    }
    assert_eq!(
        decimal_text(find_percentage(1, usize::MAX)),
        float_percentage(1, usize::MAX)
    );
}

#[test]
fn halves_of_a_percent_are_rounded_as_in_floating_point() {
    let mut ties = 0;
    for total in (8..20_000usize).step_by(8) {
        for k in 0..100usize {
            let twice = (2 * k + 1) * total;
            if twice % 200 == 0 {
                let done = twice / 200;
                assert_eq!(
                    decimal_text(find_percentage(done, total)),
                    float_percentage(done, total),
                    "{} of {}",
                    done,
                    total
                );
                ties += 1;
            }
        }
    }
    assert!(ties > 1000);
}

#[test]
fn a_bar_is_empty_full_or_at_least_two_wide() {
    assert_eq!(progress_width(Progress { done: 0, total: 5 }), 0);
    assert_eq!(progress_width(Progress { done: 1, total: 1 }), 240);
    assert_eq!(progress_width(Progress { done: 1, total: 2 }), 120);
    assert_eq!(progress_width(Progress { done: 1, total: 1000 }), 2);
    assert_eq!(find_length_share(1, 1000, 240), 0);
    assert_eq!(find_length_share(1, 3, 240), 80);
}

#[test]
fn a_bar_never_gets_narrower_as_more_is_sent() {
    for total in [1usize, 2, 3, 7, 239, 240, 241, 1000, 4999] {
        let mut before = 0;
        for done in 0..total + 1 {
            let width = progress_width(Progress { done, total });
            assert!(before <= width && width <= 240);
            assert_eq!(width == 0, done == 0);
            assert!(done == 0 || width >= 2);
            before = width;
        }
        assert_eq!(before, 240);
    }
    let mut numbers = Numbers(0xA076_1D64_78BD_642F);
    for _ in 0..100_000u32 {
        let total = (numbers.next() as usize % (1 << 24)) + 1;
        let other_total = (numbers.next() as usize % (1 << 24)) + 1;
        let done = numbers.next() as usize % (total + 1);
        let other_done = numbers.next() as usize % (other_total + 1);
        let width = progress_width(Progress { done, total });
        let other_width = progress_width(Progress {
            done: other_done,
            total: other_total,
        });
        if done * other_total <= other_done * total {
            assert!(width <= other_width);
        }
        if done * other_total >= other_done * total {
            assert!(width >= other_width);
        }
    }
}

#[test]
fn a_bar_is_full_once_everything_was_sent() {
    for total in [1usize, 3, 1 << 24, (1 << 24) + 1, usize::MAX] {
        assert_eq!(progress_width(Progress { done: total, total }), 240);
    }
    assert_eq!(progress_width(Progress { done: 9, total: 4 }), 240);
}

#[test]
fn a_larger_share_of_too_many_parts_may_look_smaller() {
    let (done, total) = (655_891usize, 44_975_385usize);
    let (larger_done, larger_total) = (244_663usize, 16_776_892usize);
    assert!(done * larger_total <= larger_done * total);
    assert_eq!(progress_width(Progress { done, total }), 4);
    assert_eq!(float_width(done, total), 4);
    assert_eq!(
        progress_width(Progress {
            done: larger_done,
            total: larger_total
        }),
        3
    );
    assert_eq!(float_width(larger_done, larger_total), 3);
}

#[test]
fn numbers_are_written_in_decimal() {
    assert_eq!(decimal_text(0), "0");
    assert_eq!(decimal_text(9), "9");
    assert_eq!(decimal_text(10), "10");
    assert_eq!(decimal_text(1234567890), "1234567890");
    assert_eq!(decimal_text(u128::MAX), u128::MAX.to_string());
}

#[test]
fn a_speed_is_shown_once_time_has_passed() {
    assert_eq!(compute_speed_text(None, 49152), None);
    assert_eq!(
        compute_speed_text(Some(1), 49152),
        Some("48.00 KB/s".to_string())
    );
    assert_eq!(
        compute_speed_text(Some(1_000_000_000), 0),
        Some("0 Bytes/s".to_string())
    );
}
