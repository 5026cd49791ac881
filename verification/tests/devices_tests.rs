use swiftbeaverlodge::devices::{
    detect_device_type, format_size, is_block_device_path, list_block_devices, list_disks_only,
    BlockDevice, DeviceType, RawBlockDevice,
};

#[test]
fn test_format_size() {
    assert_eq!(format_size(0), "0 B");
    assert_eq!(format_size(512), "512 B");
    assert_eq!(format_size(1024), "1.0 KB");
    assert_eq!(format_size(1024 * 1024), "1.0 MB");
    assert_eq!(format_size(1024 * 1024 * 1024), "1.0 GB");
    assert_eq!(format_size(1024 * 1024 * 1024 * 1024), "1.0 TB");
}

#[test]
fn test_detect_device_type() {
    assert_eq!(detect_device_type("sda"), DeviceType::Disk);
    assert_eq!(detect_device_type("sda1"), DeviceType::Partition);
    assert_eq!(detect_device_type("nvme0n1"), DeviceType::NVMe);
    assert_eq!(detect_device_type("nvme0n1p1"), DeviceType::NVMePartition);
    assert_eq!(detect_device_type("loop0"), DeviceType::Loop);
}

#[test]
fn test_is_block_device_path() {
    assert!(is_block_device_path("/dev/sda"));
    assert!(is_block_device_path("/dev/nvme0n1"));
    assert!(!is_block_device_path("/home/user/image.dd"));
    assert!(!is_block_device_path("image.dd"));
}

#[test]
fn test_list_block_devices() {
    let entries = vec![
        raw("sda", true, Some("1000")),
        raw("loop0", true, Some("8")),
        raw("ram1", true, Some("8")),
        raw("nvme0n1p1", true, Some("2")),
    ];
    let devices = list_block_devices(entries);
    assert_eq!(devices.len(), 3);
    for device in &devices {
        assert!(!device.name.is_empty());
        assert!(device.path.starts_with("/dev"));
    }
}

fn raw(name: &str, node: bool, size: Option<&str>) -> RawBlockDevice {
    RawBlockDevice {
        name: name.to_string(),
        dev_node_exists: node,
        size_text: size.map(|s| s.to_string()),
        removable_text: Some("1\n".to_string()),
        model_text: Some("  \n".to_string()),
        vendor_text: Some(" ACME \n".to_string()),
    }
}

#[test]
fn listed_devices_skip_ram_missing_and_empty_and_sort_by_name() {
    let entries = vec![
        raw("sdb", true, Some("2048\n")),
        raw("ram0", true, Some("2048")),
        raw("zram0", true, Some("2048")),
        raw("sdc", false, Some("2048")),
        raw("sdd", true, Some("0")),
        raw("sda", true, Some("abc")),
        raw("nvme0n1", true, Some("4")),
    ];
    let devices = list_block_devices(entries);
    let names: Vec<&str> = devices.iter().map(|d| d.name.as_str()).collect();
    assert_eq!(names, vec!["nvme0n1", "sdb"]);
    let sdb = &devices[1];
    assert_eq!(sdb.path, "/dev/sdb");
    assert_eq!(sdb.size, 2048 * 512);
    assert_eq!(sdb.size_display, "1.0 MB");
    assert!(sdb.removable);
    assert_eq!(sdb.model.as_deref(), Some("ACME"));
    assert_eq!(sdb.device_type, DeviceType::Disk);
    assert_eq!(devices[0].device_type, DeviceType::NVMe);
}

fn device(name: &str, t: DeviceType) -> BlockDevice {
    BlockDevice {
        path: format!("/dev/{name}"),
        name: name.to_string(),
        size: 1,
        size_display: "1 B".to_string(),
        model: None,
        removable: false,
        device_type: t,
    }
}

#[test]
fn disks_only_keeps_whole_devices_in_order() {
    let all = vec![
        device("loop0", DeviceType::Loop),
        device("sda", DeviceType::Disk),
        device("sda1", DeviceType::Partition),
        device("nvme0n1", DeviceType::NVMe),
        device("nvme0n1p1", DeviceType::NVMePartition),
        device("sr0", DeviceType::Other),
    ];
    let names: Vec<String> = list_disks_only(all).into_iter().map(|d| d.name).collect();
    assert_eq!(names, vec!["loop0", "sda", "nvme0n1"]);
}

#[test]
fn display_name_uses_model_or_unknown() {
    let mut d = device("sda", DeviceType::Disk);
    assert_eq!(d.display_name(), "sda - Unknown (1 B)");
    d.model = Some("Disk X".to_string());
    assert_eq!(d.display_name(), "sda - Disk X (1 B)");
}

#[test]
fn format_size_rounds_to_one_decimal() {
    assert_eq!(format_size(1536), "1.5 KB");
    assert_eq!(format_size(1023), "1023 B");
    assert_eq!(format_size(1024 * 1024 - 1), "1024.0 KB");
}

#[test]
fn device_types_of_other_names() {
    assert_eq!(detect_device_type("hdb2"), DeviceType::Partition);
    assert_eq!(detect_device_type("vda"), DeviceType::Disk);
    assert_eq!(detect_device_type("sr0"), DeviceType::Other);
    assert_eq!(detect_device_type("nvme0n1px"), DeviceType::NVMe);
}
