use cinnabar::capture::{
    parse_mode, plan_capture, resolve_device, supports_mono_rate, CapturePlan, DeviceError,
    DeviceRequest, DeviceSlot, InputRange, Mode, ModeError,
};

#[test]
fn mode_names() {
    assert_eq!(parse_mode("cli"), Ok(Mode::Cli));
    assert_eq!(parse_mode("gui"), Ok(Mode::Gui));
    assert_eq!(parse_mode("tui"), Err(ModeError::Unknown));
    assert_eq!(parse_mode(""), Err(ModeError::Unknown));
    assert_eq!(parse_mode("CLI"), Err(ModeError::Unknown));
}

fn names() -> Vec<Option<String>> {
    vec![
        Some("pulse".to_string()),
        None,
        Some("USB Mic".to_string()),
        Some("USB Mic".to_string()),
    ]
}

#[test]
fn device_by_index() {
    assert_eq!(resolve_device(&names(), &DeviceRequest::ByIndex(1)), Ok(DeviceSlot::Listed(1)));
    assert_eq!(
        resolve_device(&names(), &DeviceRequest::ByIndex(4)),
        Err(DeviceError::IndexOutOfRange)
    );
}

#[test]
fn device_by_name_takes_the_first_match() {
    assert_eq!(
        resolve_device(&names(), &DeviceRequest::ByName("USB Mic".to_string())),
        Ok(DeviceSlot::Listed(2))
    );
    assert_eq!(
        resolve_device(&names(), &DeviceRequest::ByName("usb mic".to_string())),
        Err(DeviceError::NameNotFound)
    );
    assert_eq!(resolve_device(&names(), &DeviceRequest::Default), Ok(DeviceSlot::HostDefault));
}

#[test]
fn capture_prefers_mono_at_the_engine_rate() {
    let ranges = [
        InputRange { channels: 2, min_rate: 8000, max_rate: 96000 },
        InputRange { channels: 1, min_rate: 8000, max_rate: 48000 },
    ];
    assert!(supports_mono_rate(&ranges, 16000));
    assert_eq!(
        plan_capture(&ranges, 2, 48000),
        CapturePlan { channels: 1, sample_rate: 16000, resample: false }
    );
}

#[test]
fn capture_falls_back_to_the_default_configuration() {
    let ranges = [
        InputRange { channels: 2, min_rate: 8000, max_rate: 96000 },
        InputRange { channels: 1, min_rate: 44100, max_rate: 48000 },
    ];
    assert!(!supports_mono_rate(&ranges, 16000));
    assert_eq!(
        plan_capture(&ranges, 2, 48000),
        CapturePlan { channels: 2, sample_rate: 48000, resample: true }
    );
    assert_eq!(
        plan_capture(&[], 2, 16000),
        CapturePlan { channels: 2, sample_rate: 16000, resample: false }
    );
}
