use vangers_srv::uptime::format_uptime;
use vangers_srv::utils::{get_first_cstr, slice_le_to_i16, slice_le_to_i32};

#[test]
fn test_slice_to_i32() {
    let digit = 9452468i32;
    let arr = digit.to_le_bytes();
    assert_eq!(digit, slice_le_to_i32(&arr));

    let digit = -452001i32;
    let arr = digit.to_le_bytes();
    assert_eq!(digit, slice_le_to_i32(&arr));
}

#[test]
fn test_slice_to_i16() {
    let digit = 10419i16;
    let arr = digit.to_le_bytes();
    assert_eq!(digit, slice_le_to_i16(&arr));

    let digit = -2845i16;
    let arr = digit.to_le_bytes();
    assert_eq!(digit, slice_le_to_i16(&arr));
}

#[allow(non_upper_case_globals)]
const data: &'static [u8] = &[
    /* == CP-866 == */
    0x74, 0x65, 0x73, 0x74, // test
    0x00, // null-terminator
    0x82, 0x82, 0x85, 0x84, 0x88, 0x92, 0x85, // CP866 capitals
    0x20, // space symbol
    0x91, 0x92, 0x90, 0x8E, 0x8A, 0x93, // CP866 capitals
    0x00, 0x35, 0x00, 0x94, 0x00, 0x00, 0x00, 0x00, 0x00, //
    0x00, 0x00, 0x00, 0x00, 0x00, 0x00, 0x00, 0xFF, 0x00,
];

#[test]
fn test_get_first_str() {
    assert_eq!(get_first_cstr(&data[0..]), Some(&data[0..5]));
    assert_eq!(get_first_cstr(&data[2..]), Some(&data[2..5]));
    assert_eq!(get_first_cstr(&data[0..2]), None);
    assert_eq!(get_first_cstr(&data[1..3]), None);
    assert_eq!(get_first_cstr(&data[4..]), None);
    assert_eq!(get_first_cstr(&data[5..]), Some(&data[5..20]));
}

#[test]
fn uptime_display_format() {
    assert_eq!(b"0:00:00".to_vec(), format_uptime(0));
    assert_eq!(b"0:01:05".to_vec(), format_uptime(65));
    assert_eq!(b"2:03:04".to_vec(), format_uptime(2 * 3600 + 3 * 60 + 4));
    // hours wrap at a day
    assert_eq!(b"1:00:00".to_vec(), format_uptime(25 * 3600));
}
