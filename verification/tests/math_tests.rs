use triplanetary::hash2_u32;
use triplanetary::hash_u32;
use triplanetary::isqrt;
use triplanetary::math::round_div;

#[test]
fn hash_of_one_word() {
    assert_eq!(hash_u32(0), 0);
    assert_eq!(hash_u32(1), 1364076727);
    assert_eq!(hash_u32(12), 2089332083);
    assert_eq!(hash_u32(4331), 1463504770);
    assert_eq!(hash_u32(4294967295), 2180083513);
    assert_eq!(hash_u32(123456789), 3126909082);
}

#[test]
fn hash_of_two_words() {
    assert_eq!(hash2_u32(0, 0), 2654435769);
    assert_eq!(hash2_u32(12, 4331), 449083085);
    assert_eq!(hash2_u32(1, 2), 4018512626);
    assert_eq!(hash2_u32(4294967295, 4294967295), 2681673550);
    assert_eq!(hash2_u32(7, 2147483648), 1459693693);
}

#[test]
fn hash_of_two_words_depends_on_their_order() {
    assert_ne!(hash2_u32(1, 2), hash2_u32(2, 1));
}

#[test]
fn square_root_is_rounded_down() {
    assert_eq!(isqrt(0), 0);
    assert_eq!(isqrt(1), 1);
    assert_eq!(isqrt(2), 1);
    assert_eq!(isqrt(3), 1);
    assert_eq!(isqrt(4), 2);
    assert_eq!(isqrt(8), 2);
    assert_eq!(isqrt(9), 3);
    assert_eq!(isqrt(99), 9);
    assert_eq!(isqrt(100), 10);
    assert_eq!(isqrt(2147483647), 46340);
    assert_eq!(isqrt(4294967295), 65535);
    for n in 0..2000u32 {
        let root = isqrt(n);
        assert!(root * root <= n);
        assert!(n < (root + 1) * (root + 1));
    }
}

#[test]
fn round_div_rounds_halves_away_from_zero() {
    assert_eq!(round_div(0, 1), 0);
    assert_eq!(round_div(7, 2), 4);
    assert_eq!(round_div(-7, 2), -4);
    assert_eq!(round_div(5, 10), 1);
    assert_eq!(round_div(-5, 10), -1);
    assert_eq!(round_div(49, 100), 0);
    assert_eq!(round_div(-49, 100), 0);
    assert_eq!(round_div(51, 100), 1);
    assert_eq!(round_div(-51, 100), -1);
    assert_eq!(round_div(149, 100), 1);
    assert_eq!(round_div(150, 100), 2);
    assert_eq!(round_div(-150, 100), -2);
    assert_eq!(round_div(1_000_000_007, 3), 333_333_336);
}
