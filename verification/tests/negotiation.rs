use ota_core::codec::{encode_identity, encode_metadata};
use ota_core::messages::{
    AbConfig, AbInstallType, BuildMetadata, DeviceIdentityMessage, InstallConfig, OtaType,
    ServiceError, UpdateMetadataMessage,
};
use ota_core::negotiate::{build_response_proto, handle_ota_request};
use ota_core::registry::BuildRegistry;
use ota_core::supported::{standard_devices, SupportedDeviceSet};

fn candidates(ids: &[&[u8]]) -> Vec<u8> {
    encode_identity(&DeviceIdentityMessage {
        devices: ids.iter().map(|d| d.to_vec()).collect(),
    })
}

fn venus_build() -> BuildMetadata {
    BuildMetadata {
        device: b"venus".to_vec(),
        filename: b"img1".to_vec(),
        url: b"https://example.test/img1".to_vec(),
        size: 4096,
    }
}

#[test]
fn selection_determinism() {
    let mut reg = BuildRegistry::new();
    reg.publish(venus_build());
    let sup = standard_devices();

    let response = build_response_proto(&reg, b"venus").unwrap();
    assert_eq!(response.name, b"img1".to_vec());
    assert_eq!(response.ab_install_type, AbInstallType::NonStreaming);
    assert_eq!(response.ota_type, OtaType::DualPartition);

    // "foo" is unsupported, so the first supported candidate is "venus".
    let request = candidates(&[b"foo", b"venus"]);
    let bytes = handle_ota_request(&reg, &sup, &request).unwrap();

    let expected = UpdateMetadataMessage {
        name: b"img1".to_vec(),
        url: b"https://example.test/img1".to_vec(),
        changelog_url: Vec::new(),
        size_bytes: 4096,
        ota_type: OtaType::DualPartition,
        ab_install_type: AbInstallType::NonStreaming,
        ab_config: AbConfig {
            force_switch_slot: false,
        },
        install_config: InstallConfig {
            wipe: false,
            retrofit_dynamic_partitions: false,
        },
    };
    assert_eq!(bytes, encode_metadata(&expected));
}

#[test]
fn first_supported_candidate_wins() {
    let mut reg = BuildRegistry::new();
    reg.publish(venus_build());
    let mut sunny = venus_build();
    sunny.device = b"sunny".to_vec();
    sunny.filename = b"img-sunny".to_vec();
    reg.publish(sunny);
    let sup = standard_devices();

    // Both are supported and published: the caller's order decides.
    let request = candidates(&[b"sunny", b"venus"]);
    let bytes = handle_ota_request(&reg, &sup, &request).unwrap();
    let chosen = build_response_proto(&reg, b"sunny").unwrap();
    assert_eq!(bytes, encode_metadata(&chosen));
}

#[test]
fn no_match() {
    let mut reg = BuildRegistry::new();
    reg.publish(venus_build());
    let sup = standard_devices();
    let request = candidates(&[b"foo", b"bar"]);
    assert_eq!(
        handle_ota_request(&reg, &sup, &request).unwrap_err(),
        ServiceError::NoSupportedDevice
    );
}

#[test]
fn empty_candidate_list_is_no_match() {
    let reg = BuildRegistry::new();
    let sup = standard_devices();
    let request = candidates(&[]);
    assert_eq!(
        handle_ota_request(&reg, &sup, &request).unwrap_err(),
        ServiceError::NoSupportedDevice
    );
}

#[test]
fn unpublished_supported_device() {
    let reg = BuildRegistry::new();
    let sup = standard_devices();
    let request = candidates(&[b"venus"]);
    assert_eq!(
        handle_ota_request(&reg, &sup, &request).unwrap_err(),
        ServiceError::BuildNotFound
    );
}

#[test]
fn malformed_request_reports_wire_error() {
    let reg = BuildRegistry::new();
    let sup = standard_devices();
    assert_eq!(
        handle_ota_request(&reg, &sup, &[0xde, 0xad, 0xbe, 0xef]).unwrap_err(),
        ServiceError::MalformedWirePayload
    );
}

#[test]
fn standard_devices_membership() {
    let sup = standard_devices();
    assert!(sup.is_supported(b"venus"));
    assert!(sup.is_supported(b"sake"));
    assert!(!sup.is_supported(b"foo"));
    assert!(!sup.is_supported(b""));
}

#[test]
fn custom_device_set() {
    let sup = SupportedDeviceSet::new(vec![b"pyxis".to_vec()]);
    assert!(sup.is_supported(b"pyxis"));
    assert!(!sup.is_supported(b"venus"));
}
