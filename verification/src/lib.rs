//! Etcherus: the logic of a USB flashing tool. It finds removable drives in
//! the reports of system tools, checks that a chosen image fits the chosen
//! drive, and drives the application's state from event to event.
pub mod text;
pub mod size_format;
pub mod pattern;
pub mod drive_model;
pub mod image_model;
pub mod usb_service;
pub mod flash_service;
pub mod app_state;
