use esp_hal_mbedtls::rng::word_from_le_bytes;
use esp_hal_mbedtls::timer::uptime_millis;

#[test]
fn uptime_is_in_milliseconds() {
    assert_eq!(uptime_millis(0), 0);
    assert_eq!(uptime_millis(999), 0);
    assert_eq!(uptime_millis(1_000), 1);
    assert_eq!(uptime_millis(1_234_567), 1_234);
    assert_eq!(uptime_millis(u64::MAX), 18_446_744_073_709_551);
}

#[test]
fn uptime_does_not_run_backwards() {
    let mut previous = uptime_millis(0);
    for step in 1..1_000u64 {
        let millis = uptime_millis(step * 777);
        assert!(previous <= millis);
        assert_eq!(uptime_millis(step * 777 + 1_000), millis + 1);
        previous = millis;
    }
}

#[test]
fn word_takes_the_lowest_byte_first() {
    assert_eq!(word_from_le_bytes([0; 8]), 0);
    assert_eq!(word_from_le_bytes([1, 0, 0, 0, 0, 0, 0, 0]), 1);
    assert_eq!(word_from_le_bytes([8, 7, 6, 5, 4, 3, 2, 1]), 0x0102_0304_0506_0708);
    assert_eq!(word_from_le_bytes([0xff; 8]), u64::MAX);
}

#[test]
fn every_word_is_reached_by_its_bytes() {
    for word in [0u64, 1, 255, 256, 0x8000_0000_0000_0000, 0x0123_4567_89ab_cdef, u64::MAX] {
        let bytes = word.to_le_bytes();
        assert_eq!(word_from_le_bytes(bytes), word);
    }
}

#[test]
fn different_bytes_give_different_words() {
    let bytes = [9, 8, 7, 6, 5, 4, 3, 2];
    for i in 0..8 {
        let mut other = bytes;
        other[i] += 1;
        assert_ne!(word_from_le_bytes(bytes), word_from_le_bytes(other));
    }
}
