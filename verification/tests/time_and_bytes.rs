use savereader::bytes::{find, read_int, read_u16_le, read_u32_le};
use savereader::time::format_time;

#[test]
fn format_time_zero() {
    assert_eq!(format_time(0), "00:00:00");
}

#[test]
fn format_time_one_of_each() {
    assert_eq!(format_time(3661), "01:01:01");
}

#[test]
fn format_time_no_day_rollover() {
    assert_eq!(format_time(90000), "25:00:00");
}

#[test]
fn format_time_under_a_minute() {
    assert_eq!(format_time(59), "00:00:59");
}

#[test]
fn format_time_large() {
    // 359999 seconds is 99:59:59.
    assert_eq!(format_time(359999), "99:59:59");
    // 3661 * 100 = 366100 -> 101:41:40.
    assert_eq!(format_time(366100), "101:41:40");
}

#[test]
fn read_u16_le_values() {
    let b = [0x34u8, 0x12, 0xff, 0x00];
    assert_eq!(read_u16_le(&b, 0), 0x1234);
    assert_eq!(read_u16_le(&b, 1), 0xff12);
    assert_eq!(read_u16_le(&b, 2), 0x00ff);
}

#[test]
fn read_u32_le_values() {
    let b = [0x78u8, 0x56, 0x34, 0x12, 0xff];
    assert_eq!(read_u32_le(&b, 0), 0x12345678);
    assert_eq!(read_u32_le(&b, 1), 0xff123456);
    assert_eq!(read_int(&b, 0), 0x12345678);
}

#[test]
fn find_first_zero_pair() {
    let b = [1u8, 0, 2, 0, 0, 3];
    assert_eq!(find(&b), 3);
}

#[test]
fn find_no_pair() {
    let b = [1u8, 0, 2, 0, 3];
    assert_eq!(find(&b), -1);
    let empty: [u8; 0] = [];
    assert_eq!(find(&empty), -1);
    let one = [0u8];
    assert_eq!(find(&one), -1);
}

#[test]
fn find_pair_at_start() {
    let b = [0u8, 0, 1];
    assert_eq!(find(&b), 0);
}
