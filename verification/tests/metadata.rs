use smb::fscc::FileAttributes;
use smb::runtime::metadata::{basic_information, file_time, UnixTime};

const SECOND: u128 = 1_000_000_000;

#[test]
fn omitted_fields_and_change_time_are_unchanged() {
    let value = basic_information(None, None, Some(UnixTime::after_epoch(0))).unwrap();
    assert_eq!(value.creation_time.0, 0);
    assert_eq!(value.last_access_time.0, 0);
    assert_eq!(value.change_time.0, 0);
    assert_eq!(value.last_write_time.0, 116_444_736_000_000_000);
    assert_eq!(value.file_attributes, FileAttributes::default());
}

#[test]
fn timestamps_round_down_to_hundred_nanoseconds() {
    assert_eq!(
        file_time(Some(UnixTime::after_epoch(199))).unwrap().0,
        116_444_736_000_000_001
    );
    assert_eq!(
        file_time(Some(UnixTime::before_epoch(1))).unwrap().0,
        116_444_735_999_999_999
    );
}

#[test]
fn sentinel_and_out_of_range_timestamps_are_rejected() {
    let epoch = 11_644_473_600 * SECOND;
    assert!(file_time(Some(UnixTime::before_epoch(epoch))).is_err());
    assert!(file_time(Some(UnixTime::before_epoch(epoch - 99))).is_err());
    assert!(file_time(Some(UnixTime::before_epoch(epoch + 1))).is_err());
    assert!(file_time(Some(UnixTime::before_epoch(epoch - 100))).is_ok());
    let too_large = u128::from(u64::MAX / 100) * SECOND;
    assert!(file_time(Some(UnixTime::after_epoch(too_large))).is_err());
}
