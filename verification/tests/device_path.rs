use disko::{device_path_from_groups, parse_u8, DevicePath, DevicePathError};

#[test]
fn test_device_path_try_from() {
    assert_eq!(
        DevicePath("/dev/sdx".to_string(), None),
        DevicePath::try_from("/dev/sdx").unwrap()
    );
    assert_eq!(
        DevicePath("/dev/sdx".to_string(), Some(1)),
        DevicePath::try_from("/dev/sdx1").unwrap()
    );
    assert_eq!(
        DevicePath(
            "/dev/disk/by-id/scsi-0QEMU_QEMU_HARDDISK_19353493".to_string(),
            None
        ),
        DevicePath::try_from("/dev/disk/by-id/scsi-0QEMU_QEMU_HARDDISK_19353493").unwrap()
    );
    assert_eq!(
        DevicePath(
            "/dev/disk/by-id/scsi-0QEMU_QEMU_HARDDISK_19353493".to_string(),
            Some(3)
        ),
        DevicePath::try_from("/dev/disk/by-id/scsi-0QEMU_QEMU_HARDDISK_19353493-part3").unwrap()
    );
}

#[test]
fn device_path_vd_with_trailing_text() {
    assert_eq!(
        DevicePath("/dev/vdbp".to_string(), Some(2)),
        DevicePath::try_from("/dev/vdbp2").unwrap()
    );
    assert_eq!(
        DevicePath("/dev/sda".to_string(), Some(12)),
        DevicePath::try_from("/dev/sda+12").unwrap()
    );
    assert_eq!(
        DevicePath("/dev/sda".to_string(), None),
        DevicePath::try_from("/dev/sda300").unwrap()
    );
}

#[test]
fn device_path_without_a_path_is_refused() {
    assert_eq!(
        DevicePath::try_from("/dev/zvol/tank/vol"),
        Err(DevicePathError::NoPath)
    );
    assert_eq!(DevicePath::try_from(""), Err(DevicePathError::NoPath));
}

#[test]
fn device_path_text() {
    assert_eq!(DevicePath("/dev/sda".to_string(), None).to_string(), "/dev/sda");
    assert_eq!(DevicePath("/dev/sda".to_string(), Some(7)).to_string(), "/dev/sda7");
    assert_eq!(DevicePath("/dev/sda".to_string(), Some(255)).to_string(), "/dev/sda255");
    assert_eq!(DevicePath("/dev/sda".to_string(), Some(10)).to_string(), "/dev/sda10");
    assert_eq!(
        DevicePath("/dev/disk/by-id/scsi-0QEMU_QEMU_HARDDISK_19353493".to_string(), Some(3)).to_string(),
        "/dev/disk/by-id/scsi-0QEMU_QEMU_HARDDISK_19353493-part3"
    );
    assert_eq!(
        DevicePath("/dev/disk/by-id/x".to_string(), None).to_string(),
        "/dev/disk/by-id/x"
    );
}

#[test]
fn device_path_text_reads_back() {
    for text in ["/dev/sdb4", "/dev/disk/by-id/scsi-0QEMU_QEMU_HARDDISK_19353493-part3", "/dev/vda"] {
        assert_eq!(DevicePath::try_from(text).unwrap().to_string(), text);
    }
}

#[test]
fn device_path_builders() {
    let disk = DevicePath("/dev/sda".to_string(), None);
    assert!(!disk.is_partition());
    let part = disk.with_partition(2);
    assert_eq!(part, DevicePath("/dev/sda".to_string(), Some(2)));
    assert!(part.is_partition());
    let moved = part.with_path("/dev/vdc");
    assert_eq!(moved, DevicePath("/dev/vdc".to_string(), Some(2)));
}

#[test]
fn parse_u8_cases() {
    assert_eq!(parse_u8("0"), Some(0));
    assert_eq!(parse_u8("255"), Some(255));
    assert_eq!(parse_u8("007"), Some(7));
    assert_eq!(parse_u8("+4"), Some(4));
    assert_eq!(parse_u8("256"), None);
    assert_eq!(parse_u8(""), None);
    assert_eq!(parse_u8("+"), None);
    assert_eq!(parse_u8("-1"), None);
    assert_eq!(parse_u8("1a"), None);
    assert_eq!(parse_u8("99999999999"), None);
}

#[test]
fn decimal_round_trip() {
    for n in 0..=255u8 {
        let mut s = String::new();
        disko::push_decimal(&mut s, n);
        assert_eq!(s, n.to_string());
        assert_eq!(parse_u8(&s), Some(n));
    }
}

#[test]
fn device_path_from_captured_groups() {
    let groups = vec![Some("/dev/sdb7".to_string()), Some("/dev/sdb".to_string()), Some("7".to_string())];
    assert_eq!(device_path_from_groups(&groups), Ok(DevicePath("/dev/sdb".to_string(), Some(7))));
    let groups = vec![Some("/dev/disk/x-part".to_string()), Some("/dev/disk/x".to_string()), None];
    assert_eq!(device_path_from_groups(&groups), Ok(DevicePath("/dev/disk/x".to_string(), None)));
    let groups = vec![Some(String::new()), None];
    assert_eq!(device_path_from_groups(&groups), Err(DevicePathError::NoPath));
    let groups = vec![Some("/dev/sdb".to_string())];
    assert_eq!(device_path_from_groups(&groups), Err(DevicePathError::NoPath));
}
