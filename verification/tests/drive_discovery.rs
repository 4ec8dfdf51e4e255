use etcherus::usb_service::{disk_wanted, DriveList};
use etcherus::drive_model::DriveType;
use etcherus::usb_service::{
    block_device, bytes_from_kib, classify_size, details_from_captures, device_name, device_path,
    df_column_kib, disk_details, disk_names, external_disk_names, is_system_volume,
    lsblk_removable_devices, mount_point_listed, mounted_disk_drive, reported_total_size,
    volume_drive, BlockDevice, DiskDetails, ReportedUnit, SizeNotation, SizeUnit, UsbService,
};

const LSBLK: &str = "\
NAME=\"sda\" FSTYPE=\"\" LABEL=\"\" SIZE=\"465.8G\" FSAVAIL=\"\" MOUNTPOINT=\"\" RM=\"0\" HOTPLUG=\"0\" TRAN=\"sata\" TYPE=\"disk\"\n\
NAME=\"sdb1\" FSTYPE=\"vfat\" LABEL=\"MYUSB\" SIZE=\"14.9G\" FSAVAIL=\"10G\" MOUNTPOINT=\"/media/u/MYUSB\" RM=\"1\" HOTPLUG=\"1\" TRAN=\"\" TYPE=\"part\"\n\
NAME=\"sdc\" FSTYPE=\"\" LABEL=\"\" SIZE=\"7.5G\" FSAVAIL=\"\" MOUNTPOINT=\"\" RM=\"0\" HOTPLUG=\"1\" TRAN=\"usb\" TYPE=\"disk\"\n\
NAME=\"loop0\" FSTYPE=\"squashfs\" LABEL=\"\" SIZE=\"55M\" FSAVAIL=\"0\" MOUNTPOINT=\"/snap/core\" RM=\"1\" HOTPLUG=\"0\" TRAN=\"\" TYPE=\"loop\"\n\
NAME=\"sr0\" FSTYPE=\"\" LABEL=\"\" SIZE=\"1024M\" FSAVAIL=\"\" MOUNTPOINT=\"\" RM=\"1\" HOTPLUG=\"1\" TRAN=\"usb\" TYPE=\"rom\"\n";

fn groups(items: &[Option<&str>]) -> Option<Vec<Option<String>>> {
    Some(items.iter().map(|i| i.map(|s| s.to_string())).collect())
}

#[test]
fn service_constructs() {
    let _ = UsbService::new();
}

#[test]
fn lsblk_offers_removable_and_usb_devices_only() {
    let devices = lsblk_removable_devices(LSBLK).unwrap();
    assert_eq!(
        devices,
        vec![
            BlockDevice {
                name: "sdb1".to_string(),
                label: "MYUSB".to_string(),
                mount_point: "/media/u/MYUSB".to_string(),
                size_text: "14.9G".to_string(),
            },
            BlockDevice {
                name: "sdc".to_string(),
                label: "sdc".to_string(),
                mount_point: String::new(),
                size_text: "7.5G".to_string(),
            },
        ]
    );
    assert!(lsblk_removable_devices("").unwrap().is_empty());
}

#[test]
fn device_names_skip_loop_and_optical_devices() {
    assert_eq!(device_name(None), None);
    assert_eq!(device_name(groups(&[Some("NAME=\"sdb\""), Some("sdb")])), Some("sdb".to_string()));
    assert_eq!(device_name(groups(&[Some("NAME=\"loop3\""), Some("loop3")])), None);
    assert_eq!(device_name(groups(&[Some("NAME=\"sr0\""), Some("sr0")])), None);
    assert_eq!(device_name(groups(&[Some("x")])), Some(String::new()));
}

#[test]
fn block_device_defaults() {
    let d = block_device("sdd".to_string(), None, groups(&[Some("LABEL=\"\""), Some("")]), None);
    assert_eq!(
        d,
        BlockDevice { name: "sdd".to_string(), label: "sdd".to_string(), mount_point: String::new(), size_text: "0".to_string() }
    );
}

#[test]
fn listable_devices_become_usb_drives() {
    let d = BlockDevice {
        name: "sdb1".to_string(),
        label: "MYUSB".to_string(),
        mount_point: "/media/u/MYUSB".to_string(),
        size_text: "14.9G".to_string(),
    };
    assert!(d.is_listable(100));
    assert!(!d.is_listable(0));
    let drive = d.clone().into_drive(100, 30);
    assert_eq!(drive.id, "/dev/sdb1");
    assert_eq!(drive.path, "/dev/sdb1");
    assert_eq!(drive.name, "MYUSB");
    assert_eq!(drive.model, "MYUSB");
    assert_eq!(drive.used_space, 70);
    assert_eq!(drive.free_space(), 30);
    assert!(drive.is_removable && drive.is_mounted);
    assert_eq!(drive.drive_type, DriveType::Usb);
    assert_eq!(d.into_drive(100, 300).used_space, 0);
    let unmounted = BlockDevice { mount_point: String::new(), ..drive_device() };
    assert!(!unmounted.is_listable(5));
}

fn drive_device() -> BlockDevice {
    BlockDevice { name: "sdc".to_string(), label: "sdc".to_string(), mount_point: "/m".to_string(), size_text: "1".to_string() }
}

#[test]
fn size_texts() {
    assert_eq!(classify_size("   "), SizeNotation::Blank);
    assert_eq!(classify_size(" 14.9G "), SizeNotation::Scaled { number: "14.9".to_string(), unit: SizeUnit::Gibi });
    assert_eq!(classify_size("1.8T"), SizeNotation::Scaled { number: "1.8".to_string(), unit: SizeUnit::Tebi });
    assert_eq!(classify_size("512M"), SizeNotation::Scaled { number: "512".to_string(), unit: SizeUnit::Mebi });
    assert_eq!(classify_size("4K"), SizeNotation::Scaled { number: "4".to_string(), unit: SizeUnit::Kibi });
    assert_eq!(classify_size("4096"), SizeNotation::Bytes(4096));
    assert_eq!(classify_size("4.5"), SizeNotation::Unreadable);
    assert_eq!(classify_size("12P"), SizeNotation::Unreadable);
}

#[test]
fn df_columns() {
    let out = "Filesystem 1K-blocks Used Available Use% Mounted on\n/dev/sdb1 15622144 5000 15617144 1% /media/u/MYUSB\n";
    assert_eq!(df_column_kib(out, 3), Some(15617144));
    assert_eq!(df_column_kib(out, 1), Some(15622144));
    assert_eq!(df_column_kib("Filesystem 1 2 3\n", 3), None);
    assert_eq!(df_column_kib("", 3), None);
    let skip_bad = "header\nx y z oops\na b c 12\n";
    assert_eq!(df_column_kib(skip_bad, 3), Some(12));
    assert_eq!(bytes_from_kib(Some(2)), 2048);
    assert_eq!(bytes_from_kib(None), 0);
}

#[test]
fn diskutil_lists_external_disks() {
    let out = "/dev/disk4 (external, physical):\n   #: TYPE NAME\n/dev/disk5 (external, physical):\n/dev/disk0 (internal, physical):\n";
    assert_eq!(external_disk_names(out).unwrap(), vec!["disk4".to_string(), "disk5".to_string()]);
    let found = vec![vec![Some("/dev/disk7 (external, physical)".to_string()), Some("disk7".to_string())], vec![Some("x".to_string())]];
    assert_eq!(disk_names(&found), vec!["disk7".to_string()]);
}

#[test]
fn diskutil_info_details() {
    let info = "   Device Identifier:        disk4\n   Device / Media Name:      SanDisk Cruzer  \n   Volume Name:              KEY\n   Mount Point:              /Volumes/KEY\n   Total Size:               15.4 GB (15376318464 Bytes)\n";
    let d = disk_details(info, "disk4").unwrap();
    assert_eq!(
        d,
        DiskDetails { mount_point: "/Volumes/KEY".to_string(), volume_name: "KEY".to_string(), vendor: "SanDisk Cruzer".to_string() }
    );
    let none = disk_details("nothing here", "disk9").unwrap();
    assert_eq!(
        none,
        DiskDetails { mount_point: String::new(), volume_name: "USB Drive disk9".to_string(), vendor: "Unknown".to_string() }
    );
    assert_eq!(reported_total_size(info, ReportedUnit::Gigabytes).unwrap(), Some("15.4".to_string()));
    assert_eq!(reported_total_size(info, ReportedUnit::Terabytes).unwrap(), None);
    let blank_name = details_from_captures("disk2", None, groups(&[Some("Volume Name:   "), Some("  ")]), None);
    assert_eq!(blank_name.volume_name, "USB Drive disk2");
}

#[test]
fn mounted_disks_and_volumes_become_drives() {
    let details = DiskDetails { mount_point: "/Volumes/KEY".to_string(), volume_name: "KEY".to_string(), vendor: "SanDisk".to_string() };
    assert!(mounted_disk_drive(device_path("disk4"), details.clone(), 0, 0).is_none());
    let d = mounted_disk_drive(device_path("disk4"), details, 1000, 250).unwrap();
    assert_eq!(d.id, "/dev/disk4");
    assert_eq!(d.used_space, 750);
    assert_eq!(d.vendor, "SanDisk");
    assert_eq!(d.mount_point, "/Volumes/KEY");
    let v = volume_drive("KEY".to_string(), "/Volumes/KEY".to_string(), 10, 4).unwrap();
    assert_eq!(v.used_space, 6);
    assert_eq!(v.vendor, "Unknown");
    assert!(volume_drive("KEY".to_string(), "/Volumes/KEY".to_string(), 0, 4).is_none());
    assert!(mount_point_listed(&vec![v.clone()], "/Volumes/KEY"));
    assert!(!mount_point_listed(&vec![v], "/Volumes/OTHER"));
}

#[test]
fn system_volumes_are_skipped() {
    assert!(is_system_volume("Macintosh HD"));
    assert!(is_system_volume("Macintosh HD - Data"));
    assert!(is_system_volume("com.apple.TimeMachine.localsnapshots"));
    assert!(is_system_volume("VMware"));
    assert!(!is_system_volume("KEY"));
    assert!(!is_system_volume("My Data"));
}

#[test]
fn drive_list_keeps_its_laws() {
    let details = DiskDetails { mount_point: "/Volumes/KEY".to_string(), volume_name: "KEY".to_string(), vendor: "SanDisk".to_string() };
    assert!(disk_wanted(&details, true));
    assert!(!disk_wanted(&details, false));
    let unmounted = DiskDetails { mount_point: String::new(), ..details.clone() };
    assert!(!disk_wanted(&unmounted, true));

    let mut list = DriveList::new();
    list.add_disk(device_path("disk4"), details, 1000, 250);
    list.add_disk(device_path("disk5"), unmounted_details(), 0, 0);
    assert!(!list.volume_wanted("KEY", "/Volumes/KEY"));
    assert!(!list.volume_wanted("Macintosh HD", "/Volumes/Macintosh HD"));
    assert!(list.volume_wanted("PHOTOS", "/Volumes/PHOTOS"));
    list.add_volume("PHOTOS".to_string(), "/Volumes/PHOTOS".to_string(), 64, 32);
    assert!(!list.volume_wanted("PHOTOS", "/Volumes/PHOTOS"));
    list.add_block_device(drive_device(), 10, 20);
    let drives = list.into_drives();
    assert_eq!(drives.len(), 3);
    assert_eq!(drives[0].id, "/dev/disk4");
    assert_eq!(drives[1].mount_point, "/Volumes/PHOTOS");
    assert_eq!(drives[1].used_space, 32);
    assert_eq!(drives[2].id, "/dev/sdc");
    assert_eq!(drives[2].used_space, 0);
    assert!(drives.iter().all(|d| d.total_space > 0 && d.used_space <= d.total_space && d.is_removable));
    assert!(drives.iter().all(|d| d.id == d.path && d.model == d.name && d.serial_number.is_empty()));
    assert_eq!(drives[0].vendor, "SanDisk");
    assert_eq!(drives[1].vendor, "Unknown");
    assert_eq!(drives[2].vendor, "Unknown");
    assert_eq!(drives[2].path, "/dev/sdc");
    assert_eq!(drives[2].model, "sdc");
}

fn unmounted_details() -> DiskDetails {
    DiskDetails { mount_point: "/Volumes/X".to_string(), volume_name: "X".to_string(), vendor: "Unknown".to_string() }
}
