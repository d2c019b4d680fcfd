use timaeus::color::palette_color;
use timaeus::math::{
    cosine, distance, div_trunc, div_trunc_any, is_even, isqrt64, no_less_than_one, one_if_none,
    rem_euc, sine,
};

#[test]
fn one_if_none_zero_gives_one() {
    assert_eq!(one_if_none(0), 1);
}

#[test]
fn one_if_none_keeps_nonzero() {
    assert_eq!(one_if_none(5), 5);
    assert_eq!(one_if_none(-3), -3);
    assert_eq!(one_if_none(1), 1);
}

#[test]
fn no_less_than_one_clamps() {
    assert_eq!(no_less_than_one(-5), 1);
    assert_eq!(no_less_than_one(0), 1);
    assert_eq!(no_less_than_one(1), 1);
    assert_eq!(no_less_than_one(7), 7);
}

#[test]
fn is_even_works() {
    assert!(is_even(0));
    assert!(is_even(4));
    assert!(is_even(-2));
    assert!(!is_even(3));
    assert!(!is_even(-7));
}

#[test]
fn distance_to_self_is_zero() {
    assert_eq!(distance(3, 4, 3, 4), 0);
    assert_eq!(distance(-17, 99, -17, 99), 0);
}

#[test]
fn distance_is_symmetric() {
    assert_eq!(distance(0, 0, 3, 4), distance(3, 4, 0, 0));
    assert_eq!(distance(-5, 2, 9, -11), distance(9, -11, -5, 2));
}

#[test]
fn distance_known_values() {
    assert_eq!(distance(0, 0, 3, 4), 5);
    assert_eq!(distance(0, 0, 1, 1), 1);
    assert_eq!(distance(10, 10, 10, 18), 8);
}

#[test]
fn isqrt_known_values() {
    assert_eq!(isqrt64(0), 0);
    assert_eq!(isqrt64(1), 1);
    assert_eq!(isqrt64(3), 1);
    assert_eq!(isqrt64(4), 2);
    assert_eq!(isqrt64(80), 8);
    assert_eq!(isqrt64(81), 9);
    assert_eq!(isqrt64(u64::MAX), 4294967295);
}

#[test]
fn sine_known_values() {
    assert_eq!(sine(0), 0);
    assert_eq!(sine(90), 1000);
    assert_eq!(sine(30), 500);
    assert_eq!(sine(180), 0);
    assert_eq!(sine(270), -1000);
    assert_eq!(sine(360), 0);
    assert_eq!(sine(450), 1000);
    assert_eq!(sine(-90), -1000);
}

#[test]
fn cosine_known_values() {
    assert_eq!(cosine(0), 1000);
    assert_eq!(cosine(90), 0);
    assert_eq!(cosine(180), -1000);
    assert_eq!(cosine(60), 500);
    assert_eq!(cosine(-360), 1000);
}

#[test]
fn trig_stays_in_range() {
    let mut d = -720;
    while d <= 720 {
        assert!(sine(d) >= -1000 && sine(d) <= 1000);
        assert!(cosine(d) >= -1000 && cosine(d) <= 1000);
        d += 1;
    }
}

#[test]
fn truncating_division() {
    assert_eq!(div_trunc(7, 2), 3);
    assert_eq!(div_trunc(-7, 2), -3);
    assert_eq!(div_trunc(0, 5), 0);
    assert_eq!(div_trunc_any(7, -2), -3);
    assert_eq!(div_trunc_any(-7, -2), 3);
}

#[test]
fn euclidean_remainder() {
    assert_eq!(rem_euc(7, 3), 1);
    assert_eq!(rem_euc(-7, 3), 2);
    assert_eq!(rem_euc(-9, 3), 0);
    assert_eq!(rem_euc(0, 4), 0);
}

#[test]
fn palette_wraps_modulo_nine() {
    assert_eq!(palette_color(9), palette_color(0));
    assert_eq!(palette_color(13), palette_color(4));
    // the nine palette entries are pairwise distinct
    for i in 0..9u32 {
        for j in 0..9u32 {
            if i != j {
                assert_ne!(palette_color(i), palette_color(j));
            }
        }
    }
}
