use mmap_io::utils::{align_up, ensure_in_bounds, page_size};
use mmap_io::MmapIoError;
use std::io;

#[test]
fn test_utils_functions() {
    // Test page_size
    let ps = page_size();
    assert!(ps > 0);
    assert!(ps.is_power_of_two());

    // Test align_up
    assert_eq!(align_up(0, 4096), 0);
    assert_eq!(align_up(1, 4096), 4096);
    assert_eq!(align_up(4096, 4096), 4096);
    assert_eq!(align_up(4097, 4096), 8192);

    // Test with non-power-of-2
    assert_eq!(align_up(10, 3), 12);
    assert_eq!(align_up(9, 3), 9);

    // Test ensure_in_bounds
    assert!(ensure_in_bounds(0, 100, 100).is_ok());
    assert!(ensure_in_bounds(0, 101, 100).is_err());
    assert!(ensure_in_bounds(50, 50, 100).is_ok());
    assert!(ensure_in_bounds(50, 51, 100).is_err());
    assert!(ensure_in_bounds(100, 0, 100).is_ok());
    assert!(ensure_in_bounds(101, 0, 100).is_err());
}

#[test]
fn test_error_display() {
    // Test error formatting
    let io_err = MmapIoError::Io(io::Error::new(io::ErrorKind::NotFound, "file not found").to_string());
    assert!(io_err.to_string().contains("I/O error"));

    let bounds_err = MmapIoError::OutOfBounds {
        offset: 100,
        len: 50,
        total: 120,
    };
    let err_str = bounds_err.to_string();
    assert!(err_str.contains("100"));
    assert!(err_str.contains("50"));
    assert!(err_str.contains("120"));

    let mode_err = MmapIoError::InvalidMode("test mode error");
    assert!(mode_err.to_string().contains("test mode error"));
}
