use etcherus::app_state::{is_selected_drive, AppState, Effect, Event, ProgressChange, Reaction};
use etcherus::drive_model::{DriveModel, DriveType};
use etcherus::image_model::{ImageModel, ImageType};

fn drive(id: &str, total: u64) -> DriveModel {
    DriveModel {
        id: id.to_string(),
        name: "STICK".to_string(),
        path: id.to_string(),
        total_space: total,
        used_space: 0,
        is_removable: true,
        mount_point: "/media/stick".to_string(),
        drive_type: DriveType::Usb,
        vendor: "Unknown".to_string(),
        model: "STICK".to_string(),
        serial_number: String::new(),
        is_mounted: true,
    }
}

fn image(size: u64) -> ImageModel {
    ImageModel { name: "os.iso".to_string(), path: "/tmp/os.iso".to_string(), size, file_type: ImageType::Os }
}

fn quiet() -> Reaction {
    Reaction { effect: Effect::Nothing, progress: ProgressChange::Keep }
}

#[test]
fn starts_empty_and_asks_for_drives() {
    let (s, effect) = AppState::new();
    assert_eq!(effect, Effect::RequestDriveLoad);
    assert!(s.drives.is_empty());
    assert!(!s.is_valid && !s.is_loading && !s.is_flashing);
    assert!(s.validation_message.is_none() && s.error.is_none());
    assert_eq!(s.title(), "Flash Tool");
}

#[test]
fn loading_and_refresh_scan_and_clear_the_error() {
    for event in [Event::LoadDrives, Event::Refresh] {
        let (mut s, _) = AppState::new();
        s.error = Some("old".to_string());
        let r = s.update(event);
        assert_eq!(r, Reaction { effect: Effect::ScanDrives, progress: ProgressChange::Keep });
        assert!(s.is_loading);
        assert!(s.error.is_none());
    }
}

#[test]
fn a_fitting_selection_is_ready_to_flash() {
    let (mut s, _) = AppState::new();
    assert_eq!(s.update(Event::DrivesLoaded(vec![drive("/dev/sdb", 8000)])), quiet());
    assert_eq!(s.drives.len(), 1);
    assert_eq!(s.validation_message.as_deref(), Some("Please select both image and drive"));
    s.update(Event::DriveSelected(drive("/dev/sdb", 8000)));
    assert!(!s.is_valid);
    s.update(Event::ImageSelected(image(4000)));
    assert!(s.is_valid);
    assert_eq!(s.validation_message.as_deref(), Some("Ready to flash!"));
    assert!(s.ready_to_flash());
}

#[test]
fn a_drive_smaller_than_the_image_is_refused() {
    let (mut s, _) = AppState::new();
    s.update(Event::ImageSelected(image(8001)));
    s.update(Event::DriveSelected(drive("/dev/sdb", 8000)));
    assert!(!s.is_valid);
    assert_eq!(s.validation_message.as_deref(), Some("Drive doesn't have enough space"));
    let r = s.update(Event::StartFlash);
    assert_eq!(r, quiet());
    assert!(!s.is_flashing);
}

#[test]
fn a_drive_exactly_as_large_as_the_image_is_accepted() {
    let (mut s, _) = AppState::new();
    s.update(Event::ImageSelected(image(500)));
    s.update(Event::DriveSelected(drive("/dev/sdb", 500)));
    assert!(s.is_valid);
    assert_eq!(s.validation_message.as_deref(), Some("Ready to flash!"));
    let r = s.update(Event::StartFlash);
    assert_eq!(r, Reaction { effect: Effect::RunFlash, progress: ProgressChange::Reset });
}

#[test]
fn flashing_runs_and_completes() {
    let (mut s, _) = AppState::new();
    s.update(Event::ImageSelected(image(10)));
    s.update(Event::DriveSelected(drive("/dev/sdb", 11)));
    let r = s.update(Event::StartFlash);
    assert_eq!(r, Reaction { effect: Effect::RunFlash, progress: ProgressChange::Reset });
    assert!(s.is_flashing);
    assert!(!s.ready_to_flash());
    assert_eq!(s.update(Event::FlashProgress), Reaction { effect: Effect::Nothing, progress: ProgressChange::Reported });
    let r = s.update(Event::FlashComplete);
    assert_eq!(r, Reaction { effect: Effect::Nothing, progress: ProgressChange::Complete });
    assert!(!s.is_flashing);
    assert!(s.is_valid);
    assert_eq!(s.validation_message.as_deref(), Some("Flash completed successfully!"));
}

#[test]
fn a_failure_ends_flashing_and_keeps_the_message() {
    let (mut s, _) = AppState::new();
    s.is_flashing = true;
    assert_eq!(s.update(Event::FlashError("write failed".to_string())), quiet());
    assert!(!s.is_flashing);
    assert_eq!(s.error.as_deref(), Some("write failed"));
    assert_eq!(s.update(Event::ClearError), quiet());
    assert!(s.error.is_none());
}

#[test]
fn picking_an_image_asks_for_a_file() {
    let (mut s, _) = AppState::new();
    assert_eq!(s.update(Event::SelectImage), Reaction { effect: Effect::PickImageFile, progress: ProgressChange::Keep });
    assert_eq!(s.update(Event::NoOp), quiet());
    assert!(s.selected_image.is_none());
}

#[test]
fn selected_drive_is_known_by_id() {
    let a = drive("/dev/sdb", 1);
    let b = drive("/dev/sdc", 1);
    assert!(is_selected_drive(&Some(a.clone()), &a));
    assert!(!is_selected_drive(&Some(a), &b));
    assert!(!is_selected_drive(&None, &b));
}
