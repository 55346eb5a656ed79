use ota_core::codec::{decode_identity, encode_identity, encode_metadata};
use ota_core::messages::{
    AbConfig, AbInstallType, DeviceIdentityMessage, InstallConfig, OtaType, ServiceError,
    UpdateMetadataMessage,
};

fn identity(ids: &[&[u8]]) -> DeviceIdentityMessage {
    DeviceIdentityMessage {
        devices: ids.iter().map(|d| d.to_vec()).collect(),
    }
}

#[test]
fn identity_round_trip() {
    let msg = identity(&[b"foo", b"venus"]);
    let bytes = encode_identity(&msg);
    let back = decode_identity(&bytes).unwrap();
    assert_eq!(back, msg);
}

#[test]
fn identity_round_trip_empty_list() {
    let msg = identity(&[]);
    let bytes = encode_identity(&msg);
    assert_eq!(bytes, Vec::<u8>::new());
    assert_eq!(decode_identity(&bytes).unwrap(), msg);
}

#[test]
fn identity_round_trip_long_identifier() {
    // 300 bytes forces a two-byte varint length (300 = 0xac 0x02).
    let long = vec![0x61u8; 300];
    let msg = DeviceIdentityMessage {
        devices: vec![long.clone(), b"venus".to_vec()],
    };
    let bytes = encode_identity(&msg);
    assert_eq!(bytes[0], 0x0a);
    assert_eq!(bytes[1], 0xac);
    assert_eq!(bytes[2], 0x02);
    assert_eq!(decode_identity(&bytes).unwrap(), msg);
}

#[test]
fn identity_exact_bytes() {
    let msg = identity(&[b"a"]);
    assert_eq!(encode_identity(&msg), vec![0x0a, 0x01, 0x61]);
}

#[test]
fn malformed_decode_safety() {
    // A foreign tag.
    assert_eq!(
        decode_identity(&[0xff, 0x00]).unwrap_err(),
        ServiceError::MalformedWirePayload
    );
    // A record tag with no length behind it.
    assert_eq!(
        decode_identity(&[0x0a]).unwrap_err(),
        ServiceError::MalformedWirePayload
    );
    // A length that runs past the end of the buffer.
    assert_eq!(
        decode_identity(&[0x0a, 0x05, 0x61]).unwrap_err(),
        ServiceError::MalformedWirePayload
    );
    // A varint cut off in the middle.
    assert_eq!(
        decode_identity(&[0x0a, 0x80]).unwrap_err(),
        ServiceError::MalformedWirePayload
    );
    // A varint too large for 64 bits.
    let overlong = [
        0x0au8, 0xff, 0xff, 0xff, 0xff, 0xff, 0xff, 0xff, 0xff, 0xff, 0x7f,
    ];
    assert_eq!(
        decode_identity(&overlong).unwrap_err(),
        ServiceError::MalformedWirePayload
    );
    // Trailing garbage after a good record.
    assert_eq!(
        decode_identity(&[0x0a, 0x01, 0x61, 0x13]).unwrap_err(),
        ServiceError::MalformedWirePayload
    );
}

#[test]
fn metadata_exact_bytes() {
    let msg = UpdateMetadataMessage {
        name: b"n".to_vec(),
        url: b"u".to_vec(),
        changelog_url: Vec::new(),
        size_bytes: 5,
        ota_type: OtaType::DualPartition,
        ab_install_type: AbInstallType::NonStreaming,
        ab_config: AbConfig {
            force_switch_slot: false,
        },
        install_config: InstallConfig {
            wipe: false,
            retrofit_dynamic_partitions: false,
        },
    };
    let expected = vec![
        0x0a, 0x01, 0x6e, // name "n"
        0x12, 0x01, 0x75, // url "u"
        0x1a, 0x00, // empty changelog url
        0x20, 0x05, // size 5
        0x28, 0x01, // dual-partition
        0x30, 0x01, // non-streaming
        0x3a, 0x02, 0x08, 0x00, // ab config: no forced slot switch
        0x42, 0x04, 0x08, 0x00, 0x10, 0x00, // install config: no wipe, no retrofit
    ];
    assert_eq!(encode_metadata(&msg), expected);
}

#[test]
fn metadata_encoding_deterministic() {
    let make = || UpdateMetadataMessage {
        name: b"build-42".to_vec(),
        url: b"https://example.test/b42".to_vec(),
        changelog_url: Vec::new(),
        size_bytes: 123456789,
        ota_type: OtaType::DualPartition,
        ab_install_type: AbInstallType::NonStreaming,
        ab_config: AbConfig {
            force_switch_slot: false,
        },
        install_config: InstallConfig {
            wipe: false,
            retrofit_dynamic_partitions: false,
        },
    };
    assert_eq!(encode_metadata(&make()), encode_metadata(&make()));
}
