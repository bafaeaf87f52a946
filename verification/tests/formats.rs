use path_tracer::canvas::Canvas;
use path_tracer::decimal::{decimal_len, push_decimal, push_zero_padded, push_zeros};
use path_tracer::ppm::encode_ppm;

fn dec(n: u64) -> String {
    let mut s = String::new();
    push_decimal(&mut s, n);
    s
}

#[test]
fn decimal_digits() {
    assert_eq!(dec(0), "0");
    assert_eq!(dec(7), "7");
    assert_eq!(dec(10), "10");
    assert_eq!(dec(12345), "12345");
    assert_eq!(dec(u64::MAX), "18446744073709551615");
}

#[test]
fn decimal_appends() {
    let mut s = String::from("x=");
    push_decimal(&mut s, 42);
    assert_eq!(s, "x=42");
}

#[test]
fn decimal_lengths() {
    assert_eq!(decimal_len(0), 1);
    assert_eq!(decimal_len(9), 1);
    assert_eq!(decimal_len(10), 2);
    assert_eq!(decimal_len(999), 3);
    assert_eq!(decimal_len(u64::MAX), 20);
}

#[test]
fn zero_padding() {
    let pad = |n: u64, w: usize| {
        let mut s = String::new();
        push_zero_padded(&mut s, n, w);
        s
    };
    assert_eq!(pad(7, 3), "007");
    assert_eq!(pad(0, 3), "000");
    assert_eq!(pad(42, 3), "042");
    assert_eq!(pad(123, 3), "123");
    assert_eq!(pad(1234, 3), "1234");
    assert_eq!(pad(5, 0), "5");
    for n in [0u64, 1, 9, 10, 99, 100, 1000, 98765] {
        assert_eq!(pad(n, 3), format!("{n:03}"));
    }
}

#[test]
fn zeros_only() {
    let mut s = String::from("a");
    push_zeros(&mut s, 4);
    assert_eq!(s, "a0000");
}

#[test]
fn ppm_small_image() {
    let text = encode_ppm(2, 1, &[(255, 0, 7), (1, 2, 3)]);
    assert_eq!(text, "P3\n2 1\n255\n255 0 7\n1 2 3\n");
}

#[test]
fn ppm_empty_image() {
    assert_eq!(encode_ppm(0, 0, &[]), "P3\n0 0\n255\n");
}

#[test]
fn ppm_matches_line_per_pixel() {
    let pixels: Vec<(u8, u8, u8)> = (0..12u8).map(|i| (i, 255 - i, i * 20)).collect();
    let text = encode_ppm(4, 3, &pixels);
    let mut expected = String::from("P3\n4 3\n255\n");
    for (r, g, b) in &pixels {
        expected.push_str(&format!("{r} {g} {b}\n"));
    }
    assert_eq!(text, expected);
    assert_eq!(text.lines().count(), 3 + 12);
}

#[test]
fn canvas_new_fills() {
    let c = Canvas::new(3, 2, 9u8);
    assert_eq!(c.w, 3);
    assert_eq!(c.h, 2);
    assert_eq!(c.pixels, vec![9u8; 6]);
}

#[test]
fn canvas_new_empty() {
    let c = Canvas::new(0, 5, (1u8, 2u8, 3u8));
    assert_eq!(c.w, 0);
    assert_eq!(c.h, 5);
    assert!(c.pixels.is_empty());
}
