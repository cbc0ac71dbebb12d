use robocup::sensor::{
    delay_amount, i2c_write_frame, measurement_ready, register_index_bytes, tick_count,
    transfer_status, vl53lx_error_to_result,
};

#[test]
fn status_codes_become_results() {
    assert_eq!(vl53lx_error_to_result(0), Ok(()));
    assert_eq!(vl53lx_error_to_result(-7), Err(-7));
    assert_eq!(vl53lx_error_to_result(3), Err(3));
}

#[test]
fn write_frames() {
    assert_eq!(register_index_bytes(0x1234), [0x12, 0x34]);
    assert_eq!(i2c_write_frame(0x0102, &[9, 8, 7]), Ok(vec![1, 2, 9, 8, 7]));
    assert_eq!(i2c_write_frame(0xffff, &[]), Ok(vec![0xff, 0xff]));
    let max = vec![5u8; 254];
    assert_eq!(i2c_write_frame(1, &max).unwrap().len(), 256);
    let too_long = vec![5u8; 255];
    assert_eq!(i2c_write_frame(1, &too_long), Err(-1));
}

#[test]
fn platform_values() {
    assert_eq!(transfer_status(true), 0);
    assert_eq!(transfer_status(false), -1);
    assert_eq!(delay_amount(-5), 0);
    assert_eq!(delay_amount(250), 250);
    assert_eq!(tick_count(1_000), 1_000);
    assert_eq!(tick_count((1u64 << 32) + 7), 7);
    assert!(measurement_ready(0, 1));
    assert!(!measurement_ready(0, 0));
    assert!(!measurement_ready(-1, 1));
}
