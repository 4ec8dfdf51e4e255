use etcherus::drive_model::{DriveModel, DriveType};
use etcherus::image_model::{image_type_for_extension, ImageModel, ImageType};

fn drive(total: u64, used: u64) -> DriveModel {
    DriveModel {
        id: "/dev/sdb".to_string(),
        name: "STICK".to_string(),
        path: "/dev/sdb".to_string(),
        total_space: total,
        used_space: used,
        is_removable: true,
        mount_point: "/media/stick".to_string(),
        drive_type: DriveType::Usb,
        vendor: "Unknown".to_string(),
        model: "STICK".to_string(),
        serial_number: String::new(),
        is_mounted: true,
    }
}

fn image(size: u64, file_type: ImageType) -> ImageModel {
    ImageModel { name: "os.iso".to_string(), path: "/tmp/os.iso".to_string(), size, file_type }
}

#[test]
fn free_space_is_total_less_used() {
    let d = drive(1000, 400);
    assert_eq!(d.free_space(), 600);
    assert_eq!(d.free_space() + d.used_space, d.total_space);
}

#[test]
fn enough_space_compares_with_free_space() {
    let d = drive(1000, 400);
    assert!(d.has_enough_space(600));
    assert!(d.has_enough_space(0));
    assert!(!d.has_enough_space(601));
}

#[test]
fn every_drive_is_writable() {
    assert!(drive(0, 0).is_writable());
}

#[test]
fn sizes_render_with_binary_units() {
    let d = drive(1536, 512);
    assert_eq!(d.formatted_total(), "1.5 kiB");
    assert_eq!(d.formatted_used(), "512 B");
    assert_eq!(d.formatted_free(), "1.0 kiB");
    assert_eq!(image(1023, ImageType::Os).formatted_size(), "1023 B");
    assert_eq!(image(3 * 1024 * 1024 * 1024, ImageType::Os).formatted_size(), "3.0 GiB");
}

#[test]
fn type_names() {
    assert_eq!(image(1, ImageType::Firmware).type_display_name(), "Firmware");
    assert_eq!(image(1, ImageType::Os).type_display_name(), "OS Image");
    assert_eq!(image(1, ImageType::Data).type_display_name(), "Data Image");
    assert_eq!(image(1, ImageType::Other).type_display_name(), "Other");
}

#[test]
fn extensions_give_image_kinds() {
    assert_eq!(image_type_for_extension(Some("iso")), ImageType::Os);
    assert_eq!(image_type_for_extension(Some("img")), ImageType::Os);
    assert_eq!(image_type_for_extension(Some("bin")), ImageType::Firmware);
    assert_eq!(image_type_for_extension(Some("ISO")), ImageType::Firmware);
    assert_eq!(image_type_for_extension(None), ImageType::Firmware);
}

#[test]
fn picked_file_defaults() {
    let i = ImageModel::from_picked_file(None, "/x".to_string(), None, None);
    assert_eq!(i, ImageModel { name: "Unknown".to_string(), path: "/x".to_string(), size: 0, file_type: ImageType::Firmware });
    let j = ImageModel::from_picked_file(Some("a.img".to_string()), "/a.img".to_string(), Some(77), Some("img"));
    assert_eq!(j, ImageModel { name: "a.img".to_string(), path: "/a.img".to_string(), size: 77, file_type: ImageType::Os });
}
