use obs_rs::benchmark::percentile;
use obs_rs::capture::{is_permission_failure, CaptureError};
use obs_rs::device::AudioDeviceKind;
use obs_rs::pipewire::{
    discover_devices, node_target, PipeWireAudioProvider, DEFAULT_INPUT_ID, DEFAULT_OUTPUT_ID,
};
use obs_rs::wasapi::WasapiAudioProvider;
use obs_rs::windows_discovery::{parse_discovery_output, parse_version_output};
use std::path::Path;

#[test]
fn provider_uses_stable_default_id() {
    let provider = PipeWireAudioProvider::with_commands("pw-dump-test", "pw-cat-test");
    assert_eq!(Path::new(provider.dump_command()), Path::new("pw-dump-test"));
    assert_eq!(Path::new(provider.cat_command()), Path::new("pw-cat-test"));
}

#[test]
fn discovery_enumerates_stable_input_and_output_nodes() {
    let document = r#"
        [
          {"id": 42, "type": "PipeWire:Interface:Node", "info": {"props": {
            "media.class": "Audio/Source", "node.name": "alsa_input.usb", "node.description": "USB Mic"
          }}},
          {"id": 7, "type": "PipeWire:Interface:Node", "info": {"props": {
            "media.class": "Audio/Sink", "node.name": "alsa_output.pci", "node.description": "Speakers"
          }}},
          {"id": 42, "type": "PipeWire:Interface:Node", "info": {"props": {
            "media.class": "Audio/Source", "node.name": "duplicate"
          }}}
        ]
        "#;
    let devices = discover_devices(document);
    assert_eq!(devices.len(), 4);
    assert_eq!(devices[0].id(), DEFAULT_INPUT_ID);
    assert_eq!(devices[0].kind(), AudioDeviceKind::Input);
    let default_output = devices
        .iter()
        .find(|device| device.id() == DEFAULT_OUTPUT_ID)
        .expect("default output");
    assert_eq!(default_output.kind(), AudioDeviceKind::Output);
    assert!(devices
        .iter()
        .any(|device| { device.id() == "pipewire-node-42" && device.name() == "USB Mic" }));
    assert!(devices
        .iter()
        .any(|device| { device.id() == "pipewire-node-7" && device.name() == "Speakers" }));
}

#[test]
fn node_target_rejects_unstable_ids() {
    assert_eq!(node_target("pipewire-node-42"), Some("42"));
    assert_eq!(node_target("pipewire-node-name"), None);
    assert_eq!(node_target("pipewire-default"), None);
}

#[test]
fn provider_is_constructible_on_every_target() {
    let provider = WasapiAudioProvider::new();
    assert!(provider.discover().is_err());
}

#[test]
fn percentile_uses_sorted_sample_rank() {
    assert_eq!(percentile(&[10, 20, 30, 40], 50), 20);
    assert_eq!(percentile(&[], 95), 0);
}

#[test]
fn discovery_parser_returns_displays_and_devices() {
    let output = "OBSRWIN1\tDISCOVERY\t1\nOBSRWIN1\tVERSION\t0.1.0\nscreen\twgc-screen-1\tPrimary\t0\t0\t1920\t1080\t1\nwindow\twgc-window-abcd\tEditor\n";
    let (devices, displays) = parse_discovery_output(output).expect("valid discovery");
    assert_eq!(devices.len(), 2);
    assert_eq!(displays[0].id, "wgc-screen-1");
    assert!(displays[0].primary);
}

#[test]
fn malformed_discovery_is_typed() {
    assert!(matches!(
        parse_discovery_output("wrong\n"),
        Err(CaptureError::Protocol { .. })
    ));
}

#[test]
fn discovery_requires_a_compatible_version_line() {
    let missing = "OBSRWIN1\tDISCOVERY\t1\nscreen\twgc-screen-1\tPrimary\t0\t0\t1920\t1080\t1\n";
    assert!(matches!(
        parse_discovery_output(missing),
        Err(CaptureError::Protocol { .. })
    ));

    let incompatible = "OBSRWIN1\tDISCOVERY\t1\nOBSRWIN1\tVERSION\t9.0.0\n";
    assert!(matches!(
        parse_discovery_output(incompatible),
        Err(CaptureError::Protocol { .. })
    ));
}

#[test]
fn version_reply_rejects_extra_or_duplicate_records() {
    assert!(parse_version_output("OBSRWIN1\tVERSION\t0.1.0\n").is_ok());
    assert!(matches!(
        parse_version_output("OBSRWIN1\tVERSION\t0.1.0\nother\n"),
        Err(CaptureError::Protocol { .. })
    ));
    assert!(matches!(
        parse_version_output("OBSRWIN1\tVERSION\t0.1.0\nOBSRWIN1\tVERSION\t0.1.0\n"),
        Err(CaptureError::Protocol { .. })
    ));
}

#[test]
fn helper_permission_diagnostics_are_classified_without_false_positives() {
    assert!(is_permission_failure(
        "Windows Graphics Capture failed: access is denied"
    ));
    assert!(is_permission_failure(
        "the camera is blocked by a privacy setting"
    ));
    assert!(is_permission_failure("capture is not authorized"));
    assert!(!is_permission_failure(
        "the selected display is no longer available"
    ));
    assert!(!is_permission_failure(
        "Windows Graphics Capture target closed"
    ));
}
